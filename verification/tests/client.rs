use oxide_chat::client::{
    close_reason, net_event_for_frame, parse_command, ChatLine, ChatState, Command, InputEvent,
    KeyCode, KeyOutcome, Mode, NetEvent, Status, UiAction,
};
use oxide_chat::config::CliConfig;
use oxide_chat::view::{footer_title, mode_label, status_color, StatusColor};
use oxide_chat::wire::{IncomingFrame, PresenceEvent, WireMessage};

fn state() -> ChatState {
    let config = CliConfig {
        ws_base: "ws://127.0.0.1:8787".to_string(),
        room_id: "general".to_string(),
        sender_id: "alice".to_string(),
        avatar_url: None,
    };
    let mut s = ChatState::new(config, "ws://127.0.0.1:8787/room/general");
    s.finish_connect(Ok(()));
    s
}

fn type_line(s: &mut ChatState, text: &str) -> KeyOutcome {
    if s.mode == Mode::Normal {
        s.handle_key_at(KeyCode::Char('i'), 0);
    }
    for c in text.chars() {
        s.handle_key_at(KeyCode::Char(c), 0);
    }
    s.handle_key_at(KeyCode::Enter, 1000)
}

#[test]
fn new_state_is_connecting() {
    let config = CliConfig {
        ws_base: "ws://h".to_string(),
        room_id: "r".to_string(),
        sender_id: "me".to_string(),
        avatar_url: None,
    };
    let s = ChatState::new(config, "ws://h/room/r");
    assert_eq!(s.status, Status::Connecting);
    assert_eq!(s.status_text, "connecting ws://h/room/r");
    assert_eq!(s.mode, Mode::Normal);
    assert!(s.messages.is_empty());
}

#[test]
fn connecting_sets_room_and_status() {
    let s = state();
    assert_eq!(s.status, Status::Connected);
    assert_eq!(s.connected_room_id.as_deref(), Some("general"));
    assert_eq!(s.status_text, "connected to general as alice");
    let mut t = state();
    t.finish_connect(Err("failed to connect websocket".to_string()));
    assert_eq!(t.status, Status::Error);
    assert_eq!(t.status_text, "failed to connect websocket");
}

#[test]
fn normal_mode_keys() {
    let mut s = state();
    assert!(matches!(s.handle_key_at(KeyCode::Char('x'), 0), KeyOutcome::Nothing));
    assert_eq!(s.mode, Mode::Normal);
    s.handle_key_at(KeyCode::Enter, 0);
    assert_eq!(s.input, "");
    s.handle_key_at(KeyCode::Char('i'), 0);
    assert_eq!(s.mode, Mode::Insert);
    s.handle_key_at(KeyCode::Esc, 0);
    assert_eq!(s.mode, Mode::Normal);
    s.handle_key_at(KeyCode::Char('q'), 0);
    assert!(s.should_quit);
}

#[test]
fn typing_and_backspace() {
    let mut s = state();
    s.handle_key_at(KeyCode::Char('i'), 0);
    for c in "héq".chars() {
        s.handle_key_at(KeyCode::Char(c), 0);
    }
    assert_eq!(s.input, "héq");
    assert!(!s.should_quit);
    s.handle_key_at(KeyCode::Backspace, 0);
    assert_eq!(s.input, "hé");
    s.handle_key_at(KeyCode::Backspace, 0);
    s.handle_key_at(KeyCode::Backspace, 0);
    s.handle_key_at(KeyCode::Backspace, 0);
    assert_eq!(s.input, "");
    s.handle_key_at(KeyCode::Other, 0);
    assert_eq!(s.input, "");
}

#[test]
fn chat_lines_are_sent_and_shown() {
    let mut s = state();
    let out = type_line(&mut s, "  hello there  ");
    let msg = match out {
        KeyOutcome::Send(m) => m,
        other => panic!("unexpected outcome {other:?}"),
    };
    assert_eq!(msg.sender_id, "alice");
    assert_eq!(msg.payload_cipher, b"hello there");
    assert_eq!(msg.created_at, 1000);
    assert_eq!(s.input, "  hello there  ");
    s.finish_send(&msg, Ok(()));
    assert_eq!(s.input, "");
    assert_eq!(s.messages.len(), 1);
    assert_eq!(s.messages[0].body, "hello there");
    assert_eq!(s.messages[0].sender_id, "alice");
}

#[test]
fn failed_send_keeps_the_input() {
    let mut s = state();
    let out = type_line(&mut s, "hi");
    let msg = match out {
        KeyOutcome::Send(m) => m,
        other => panic!("unexpected outcome {other:?}"),
    };
    s.finish_send(&msg, Err("channel closed".to_string()));
    assert_eq!(s.status, Status::Error);
    assert_eq!(s.status_text, "send queue error: channel closed");
    assert_eq!(s.input, "hi");
    assert!(s.messages.is_empty());
}

#[test]
fn blank_line_does_nothing() {
    let mut s = state();
    let out = type_line(&mut s, "   ");
    assert!(matches!(out, KeyOutcome::Nothing));
    assert_eq!(s.input, "   ");
    assert_eq!(s.status_text, "connected to general as alice");
}

#[test]
fn commands_are_classified() {
    assert!(matches!(parse_command(""), Command::Empty));
    assert!(matches!(parse_command("/ws  ws://x "), Command::Ws(a) if a == "ws://x"));
    assert!(matches!(parse_command("/room lobby"), Command::Room(a) if a == "lobby"));
    assert!(matches!(parse_command("/reconnect"), Command::Reconnect));
    assert!(matches!(parse_command("/clear"), Command::Clear));
    assert!(matches!(parse_command("/icat"), Command::Icat(a) if a.is_empty()));
    assert!(matches!(parse_command("/icatbob"), Command::Icat(a) if a == "bob"));
    assert!(matches!(parse_command("/name bob"), Command::Name(a) if a == "bob"));
    assert!(matches!(parse_command("/avatar https://a"), Command::Avatar(a) if a == "https://a"));
    assert!(matches!(parse_command("/ws"), Command::Chat(t) if t == "/ws"));
    assert!(matches!(parse_command("/clear now"), Command::Chat(_)));
}

#[test]
fn ws_command_switches_base() {
    let mut s = state();
    let out = type_line(&mut s, "/ws wss://chat.example.com");
    assert!(matches!(out, KeyOutcome::Action(UiAction::Reconnect { clear_history: false })));
    assert_eq!(s.ws_base, "wss://chat.example.com");
    assert_eq!(s.status, Status::Connecting);
    assert_eq!(s.status_text, "switching websocket base to wss://chat.example.com");
    assert_eq!(s.input, "");
    let out = type_line(&mut s, "/ws wss://chat.example.com");
    assert!(matches!(out, KeyOutcome::Nothing));
    assert_eq!(s.status, Status::Connected);
    assert_eq!(s.status_text, "already using websocket base wss://chat.example.com");
}

#[test]
fn room_command_switches_room() {
    let mut s = state();
    let out = type_line(&mut s, "/room general");
    assert!(matches!(out, KeyOutcome::Nothing));
    assert_eq!(s.status_text, "already in room general");
    let out = type_line(&mut s, "/room lobby");
    assert!(matches!(out, KeyOutcome::Action(UiAction::Reconnect { clear_history: true })));
    assert_eq!(s.room_id, "lobby");
    assert_eq!(s.status_text, "switching room to lobby");
}

#[test]
fn other_commands() {
    let mut s = state();
    assert!(matches!(
        type_line(&mut s, "/reconnect"),
        KeyOutcome::Action(UiAction::Reconnect { clear_history: false })
    ));
    assert_eq!(s.status_text, "reconnecting");
    assert!(matches!(type_line(&mut s, "/name  bob "), KeyOutcome::Nothing));
    assert_eq!(s.sender_id, "bob");
    assert_eq!(s.status_text, "username set to bob");
    assert!(matches!(type_line(&mut s, "/avatar https://a/b.png"), KeyOutcome::Nothing));
    assert_eq!(s.avatar_url.as_deref(), Some("https://a/b.png"));
    assert_eq!(s.status_text, "avatar URL updated");
    assert_eq!(s.self_avatar_url().unwrap(), "https://a/b.png");
    assert!(matches!(type_line(&mut s, "/icat self"), KeyOutcome::Action(UiAction::ShowSelfAvatar)));
    assert!(matches!(type_line(&mut s, "/icat"), KeyOutcome::Action(UiAction::ShowAvatar(None))));
    assert!(matches!(
        type_line(&mut s, "/icat carol"),
        KeyOutcome::Action(UiAction::ShowAvatar(Some(f))) if f == "carol"
    ));
    assert_eq!(s.input, "");
}

#[test]
fn clear_command_forgets_history() {
    let mut s = state();
    s.apply_net_event(NetEvent::Error("boom".to_string()));
    s.messages.push(ChatLine {
        sender_id: "x".to_string(),
        avatar_url: None,
        body: "y".to_string(),
        created_at: 0,
    });
    assert!(matches!(type_line(&mut s, "/clear"), KeyOutcome::Nothing));
    assert!(s.messages.is_empty());
    assert_eq!(s.status, Status::Connected);
    assert_eq!(s.status_text, "chat history cleared");
}

#[test]
fn events_only_react_to_presses() {
    let mut s = state();
    let out = s.handle_event(InputEvent::Key { code: KeyCode::Char('i'), press: false });
    assert!(matches!(out, KeyOutcome::Nothing));
    assert_eq!(s.mode, Mode::Normal);
    s.handle_event(InputEvent::Resize);
    s.handle_event(InputEvent::Key { code: KeyCode::Char('i'), press: true });
    assert_eq!(s.mode, Mode::Insert);
    s.handle_key(KeyCode::Char('a'));
    assert_eq!(s.input, "a");
}

#[test]
fn network_events_update_the_state() {
    let mut s = state();
    s.apply_net_event(NetEvent::Incoming(WireMessage {
        sender_id: "bob".to_string(),
        avatar_url: Some("https://b".to_string()),
        payload_cipher: vec![0xff, 0x01],
        created_at: 9,
    }));
    assert_eq!(s.messages[0].body, "ff01");
    assert_eq!(s.messages[0].avatar_url.as_deref(), Some("https://b"));
    let join = PresenceEvent {
        kind: "presence.join".to_string(),
        sender_id: "bob".to_string(),
        avatar_url: None,
        created_at: 10,
    };
    s.apply_net_event(NetEvent::Presence(join));
    assert_eq!(s.messages[1].sender_id, "system");
    assert_eq!(s.messages[1].body, "bob joined room");
    let leave = PresenceEvent { kind: "presence.leave".to_string(), ..s_event("bob") };
    s.apply_net_event(NetEvent::Presence(leave));
    assert_eq!(s.messages[2].body, "bob left room");
    s.apply_net_event(NetEvent::Presence(PresenceEvent { kind: "x".to_string(), ..s_event("bob") }));
    assert_eq!(s.messages[3].body, "presence event from bob");
    s.apply_net_event(NetEvent::Disconnected("socket closed".to_string()));
    assert_eq!(s.status, Status::Disconnected);
    assert_eq!(s.connected_room_id, None);
    s.finish_connect(Ok(()));
    s.apply_net_event(NetEvent::Ended);
    assert_eq!(s.status_text, "network task ended");
    assert_eq!(s.connected_room_id, None);
}

fn s_event(sender: &str) -> PresenceEvent {
    PresenceEvent {
        kind: String::new(),
        sender_id: sender.to_string(),
        avatar_url: None,
        created_at: 0,
    }
}

#[test]
fn frames_become_events() {
    let e = net_event_for_frame(None, "text");
    assert!(matches!(e, NetEvent::Error(t) if t == "invalid text JSON: expected WireMessage or presence event payload"));
    let e = net_event_for_frame(Some(IncomingFrame::Presence(s_event("z"))), "binary");
    assert!(matches!(e, NetEvent::Presence(_)));
    assert_eq!(close_reason(Some("bye")), "socket closed: bye");
    assert_eq!(close_reason(None), "socket closed");
}

#[test]
fn reconnect_steps() {
    let mut s = state();
    s.messages.push(ChatLine {
        sender_id: "x".to_string(),
        avatar_url: None,
        body: "y".to_string(),
        created_at: 0,
    });
    let url = s.begin_reconnect(false).unwrap();
    assert_eq!(url, "ws://127.0.0.1:8787/room/general");
    assert_eq!(s.status_text, "connecting ws://127.0.0.1:8787/room/general");
    assert_eq!(s.connected_room_id, None);
    assert_eq!(s.messages.len(), 1);
    let url = s.begin_reconnect(true).unwrap();
    assert_eq!(url, "ws://127.0.0.1:8787/room/general");
    assert!(s.messages.is_empty());
    s.finish_connect(Ok(()));
    assert_eq!(s.connected_room_id.as_deref(), Some("general"));
    s.ws_base = "http://nope".to_string();
    assert_eq!(s.begin_reconnect(true), None);
    assert_eq!(s.status, Status::Error);
    assert_eq!(s.status_text, "websocket base URL must start with ws:// or wss://");
}

#[test]
fn status_results() {
    let mut s = state();
    s.apply_status_result(Err("no avatar".to_string()), "avatar preview done");
    assert_eq!(s.status, Status::Error);
    assert_eq!(s.status_text, "no avatar");
    s.apply_status_result(Ok(()), "avatar preview done");
    assert_eq!(s.status, Status::Connected);
    assert_eq!(s.status_text, "avatar preview done");
}

#[test]
fn join_event_announces_the_client() {
    let s = state();
    let e = s.join_event_at(42);
    assert_eq!(e.kind, "presence.join");
    assert_eq!(e.sender_id, "alice");
    assert_eq!(e.created_at, 42);
    assert_eq!(s.join_event().sender_id, "alice");
}

#[test]
fn screen_model() {
    let mut s = state();
    assert_eq!(s.selected_row(), None);
    s.messages.push(ChatLine {
        sender_id: "bob".to_string(),
        avatar_url: None,
        body: "hi".to_string(),
        created_at: 1700000000000,
    });
    s.messages.push(ChatLine {
        sender_id: "eve".to_string(),
        avatar_url: None,
        body: "yo".to_string(),
        created_at: i64::MAX,
    });
    let rows = s.message_rows();
    assert_eq!(rows[0].stamp, "[22:13:20] ");
    assert_eq!(rows[0].sender, "bob:");
    assert_eq!(rows[0].body, "hi");
    assert_eq!(rows[1].stamp, "[--:--:--] ");
    assert_eq!(s.selected_row(), Some(1));
    let header: Vec<String> = s.header().into_iter().map(|h| h.text).collect();
    assert_eq!(
        header.concat(),
        "Base: ws://127.0.0.1:8787 | User: alice | Avatar: none | Room: general | Status: connected to general as alice | Mode: NORMAL"
    );
    assert!(s.header()[12].status);
    assert_eq!(status_color(Status::Connecting), StatusColor::Blue);
    assert_eq!(status_color(Status::Disconnected), StatusColor::Red);
    assert_eq!(mode_label(Mode::Insert), "INSERT");
    assert!(footer_title().starts_with("Input (i: insert"));
}
