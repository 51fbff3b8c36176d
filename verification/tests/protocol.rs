use oxide_chat::clock::{clock_label, epoch_millis, now_millis};
use oxide_chat::route::{
    frame_action, FrameAction,
    is_websocket_upgrade, message_bytes, relay_targets, room_route, RoomRoute, SocketMessage,
};
use oxide_chat::text::{decimal_i64, hex_fixed_u64, hex_lower_bytes, trim_str};
use oxide_chat::wire::{
    decode_payload, presence_join, select_frame, text_payload, IncomingFrame, PresenceEvent,
    WireMessage,
};

fn chat(sender: &str, text: &str, at: i64) -> WireMessage {
    WireMessage {
        sender_id: sender.to_string(),
        avatar_url: None,
        payload_cipher: text.as_bytes().to_vec(),
        created_at: at,
    }
}

fn presence(kind: &str, sender: &str) -> PresenceEvent {
    PresenceEvent {
        kind: kind.to_string(),
        sender_id: sender.to_string(),
        avatar_url: None,
        created_at: 5,
    }
}

#[test]
fn trim_removes_unicode_whitespace_at_both_ends() {
    assert_eq!(trim_str("  \t hello world \u{3000}\n"), "hello world");
    assert_eq!(trim_str("\u{2003}\u{a0}"), "");
    assert_eq!(trim_str("a b"), "a b");
}

#[test]
fn decimal_formats_like_display() {
    assert_eq!(decimal_i64(0), "0");
    assert_eq!(decimal_i64(1700000000000), "1700000000000");
    assert_eq!(decimal_i64(-42), "-42");
    assert_eq!(decimal_i64(i64::MIN), i64::MIN.to_string());
    assert_eq!(decimal_i64(i64::MAX), i64::MAX.to_string());
}

#[test]
fn hex_formats_fixed_width() {
    assert_eq!(hex_fixed_u64(0xbeef, 16), "000000000000beef");
    assert_eq!(hex_fixed_u64(u64::MAX, 16), "ffffffffffffffff");
    assert_eq!(hex_lower_bytes(&[0x00, 0xff, 0x1a]), "00ff1a");
}

#[test]
fn utf8_payload_shows_as_its_text() {
    let text = "héllo, wörld ✓";
    let payload = text_payload(text);
    assert_eq!(payload, text.as_bytes());
    assert_eq!(decode_payload(&payload), text);
}

#[test]
fn binary_payload_shows_as_hex() {
    assert_eq!(decode_payload(&[0xff, 0x00, 0x41]), "ff0041");
    assert_eq!(decode_payload(&[0xc3]), "c3");
    assert_eq!(decode_payload(&[]), "");
}

#[test]
fn known_presence_kinds_win_over_chat() {
    let frame = select_frame(Some(presence("presence.join", "bob")), Some(chat("bob", "hi", 1)));
    match frame {
        Some(IncomingFrame::Presence(e)) => assert_eq!(e.sender_id, "bob"),
        other => panic!("unexpected frame {other:?}"),
    }
    let frame = select_frame(Some(presence("presence.leave", "bob")), None);
    assert!(matches!(frame, Some(IncomingFrame::Presence(_))));
}

#[test]
fn unknown_presence_kind_falls_back_to_chat() {
    let frame = select_frame(Some(presence("typing", "bob")), Some(chat("bob", "hi", 1)));
    match frame {
        Some(IncomingFrame::Chat(m)) => assert_eq!(m.payload_cipher, b"hi"),
        other => panic!("unexpected frame {other:?}"),
    }
    assert!(select_frame(Some(presence("typing", "bob")), None).is_none());
    assert!(select_frame(None, None).is_none());
}

#[test]
fn presence_join_names_the_sender() {
    let e = presence_join("alice", Some("https://a/b.png".to_string()), 77);
    assert_eq!(e.kind, "presence.join");
    assert_eq!(e.sender_id, "alice");
    assert_eq!(e.avatar_url.as_deref(), Some("https://a/b.png"));
    assert_eq!(e.created_at, 77);
}

fn room_of(path: &str) -> Option<String> {
    match room_route(path) {
        RoomRoute::Room(r) => Some(r),
        _ => None,
    }
}

#[test]
fn room_paths_name_their_room() {
    assert_eq!(room_of("/room/general").as_deref(), Some("general"));
    assert_eq!(room_of("/room/local-test").as_deref(), Some("local-test"));
    assert_eq!(room_of("/room/abc/extra").as_deref(), Some("abc"));
}

#[test]
fn other_paths_are_refused() {
    assert!(matches!(room_route("/room/"), RoomRoute::BadPath));
    assert!(matches!(room_route("/room"), RoomRoute::BadPath));
    assert!(matches!(room_route("/"), RoomRoute::BadPath));
    assert!(matches!(room_route("/rooms/general"), RoomRoute::BadPath));
    assert!(matches!(room_route("/room//x"), RoomRoute::BadPath));
    assert!(matches!(room_route(""), RoomRoute::InvalidUrl));
    assert!(matches!(room_route("room/general"), RoomRoute::InvalidUrl));
}

#[test]
fn upgrade_header_is_compared_without_case() {
    assert!(is_websocket_upgrade(Some("websocket")));
    assert!(is_websocket_upgrade(Some("WebSocket")));
    assert!(is_websocket_upgrade(Some("WEBSOCKET")));
    assert!(!is_websocket_upgrade(Some("h2c")));
    assert!(!is_websocket_upgrade(Some("websocket ")));
    assert!(!is_websocket_upgrade(None));
}

#[test]
fn frames_carry_their_bytes() {
    assert_eq!(message_bytes(SocketMessage::Text("hé".to_string())), "hé".as_bytes());
    assert_eq!(message_bytes(SocketMessage::Binary(vec![1, 2, 3])), vec![1, 2, 3]);
}

#[test]
fn relay_reaches_every_peer_but_the_sender() {
    assert_eq!(relay_targets(2, Some(0)), vec![1]);
    assert_eq!(relay_targets(5, Some(2)), vec![0, 1, 3, 4]);
    assert_eq!(relay_targets(3, None), vec![0, 1, 2]);
    assert_eq!(relay_targets(1, Some(0)), Vec::<usize>::new());
    assert_eq!(relay_targets(0, None), Vec::<usize>::new());
}

#[test]
fn trim_start_matches_with_empty_pattern_keeps_text() {
    assert_eq!(oxide_chat::text::trim_start_seq_str("data:data:x", ""), "data:data:x");
    assert_eq!(oxide_chat::text::trim_start_seq_str("data:data:x", "data:"), "x");
}

#[test]
fn clock_labels_and_range() {
    assert_eq!(clock_label(1700000000000).as_deref(), Some("22:13:20"));
    assert_eq!(clock_label(0).as_deref(), Some("00:00:00"));
    assert_eq!(clock_label(-1).as_deref(), Some("23:59:59"));
    assert_eq!(clock_label(-8334601228800000).as_deref(), Some("00:00:00"));
    assert_eq!(clock_label(-8334601228800001), None);
    assert_eq!(clock_label(8210266876799999).as_deref(), Some("23:59:59"));
    assert_eq!(clock_label(8210266876800000), None);
    assert_eq!(clock_label(i64::MIN), None);
    assert_eq!(epoch_millis(true, 1, 999_999_999), 1999);
    assert_eq!(epoch_millis(false, 1, 1), -1001);
    assert_eq!(epoch_millis(false, 0, 0), 0);
    assert_eq!(epoch_millis(true, u64::MAX, 0), i64::MAX);
    assert_eq!(epoch_millis(false, u64::MAX, 0), i64::MIN);
    assert!(now_millis() > 1_600_000_000_000);
}

#[test]
fn relay_stores_chat_and_relays_presence_only() {
    assert!(matches!(
        frame_action(Some(chat("a", "hi", 1)), None),
        FrameAction::StoreAndRelay(m) if m.payload_cipher == b"hi"
    ));
    assert!(matches!(frame_action(None, Some(presence("presence.join", "a"))), FrameAction::RelayOnly));
    assert!(matches!(frame_action(None, Some(presence("presence.leave", "a"))), FrameAction::RelayOnly));
    assert!(matches!(frame_action(None, Some(presence("typing", "a"))), FrameAction::Reject));
    assert!(matches!(frame_action(None, None), FrameAction::Reject));
}
