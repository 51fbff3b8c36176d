//! The terminal client's state machine: modal key handling, the slash
//! commands typed in insert mode, outgoing chat messages, events from the
//! network and the steps of (re)connecting to a room.

use vstd::prelude::*;
use vstd::utf8::encode_utf8;
use crate::config::{has_ws_scheme, room_ws_url, ws_url_of, CliConfig, UrlError};
use crate::text::{append_str, copy_str, starts_with, str_eq, strip_prefix_str, trim, trim_str};
use crate::wire::{
    clone_opt, decode_payload, lemma_text_payload_roundtrip, opt_view, payload_text, presence_join,
    presence_join_kind, presence_join_now, presence_leave_kind, text_payload, IncomingFrame,
    MessageView, PresenceEvent, WireMessage,
};
use crate::clock::now_millis;
use crate::wrappers::url_accepts;

verus! {

// ---------------------------------------------------------------------------
// State
// ---------------------------------------------------------------------------

/// Vim-style input mode.
#[derive(Debug, Clone, Copy, PartialEq, Eq, Structural)]
pub enum Mode {
    Normal,
    Insert,
}

/// Connection status shown in the header.
#[derive(Debug, Clone, Copy, PartialEq, Eq, Structural)]
pub enum Status {
    Connected,
    Connecting,
    Error,
    Disconnected,
}

/// One line of the message list.
#[derive(Debug)]
pub struct ChatLine {
    pub sender_id: String,
    pub avatar_url: Option<String>,
    pub body: String,
    pub created_at: i64,
}

/// Everything the client shows and edits.
#[derive(Debug)]
pub struct ChatState {
    pub ws_base: String,
    pub room_id: String,
    pub connected_room_id: Option<String>,
    pub mode: Mode,
    pub input: String,
    pub messages: Vec<ChatLine>,
    pub status_text: String,
    pub status: Status,
    pub sender_id: String,
    pub avatar_url: Option<String>,
    pub should_quit: bool,
}

pub struct LineView {
    pub sender_id: Seq<char>,
    pub avatar_url: Option<Seq<char>>,
    pub body: Seq<char>,
    pub created_at: i64,
}

#[verifier::ext_equal]
pub struct ChatView {
    pub ws_base: Seq<char>,
    pub room_id: Seq<char>,
    pub connected_room_id: Option<Seq<char>>,
    pub mode: Mode,
    pub input: Seq<char>,
    pub messages: Seq<LineView>,
    pub status_text: Seq<char>,
    pub status: Status,
    pub sender_id: Seq<char>,
    pub avatar_url: Option<Seq<char>>,
    pub should_quit: bool,
}

impl View for ChatLine {
    type V = LineView;

    open spec fn view(&self) -> LineView {
        LineView {
            sender_id: self.sender_id@,
            avatar_url: opt_view(self.avatar_url),
            body: self.body@,
            created_at: self.created_at,
        }
    }
}

pub open spec fn lines_view(v: Seq<ChatLine>) -> Seq<LineView> {
    Seq::new(v.len(), |i: int| v[i]@)
}

impl View for ChatState {
    type V = ChatView;

    open spec fn view(&self) -> ChatView {
        ChatView {
            ws_base: self.ws_base@,
            room_id: self.room_id@,
            connected_room_id: opt_view(self.connected_room_id),
            mode: self.mode,
            input: self.input@,
            messages: lines_view(self.messages@),
            status_text: self.status_text@,
            status: self.status,
            sender_id: self.sender_id@,
            avatar_url: opt_view(self.avatar_url),
            should_quit: self.should_quit,
        }
    }
}

// ---------------------------------------------------------------------------
// Keys, commands and outcomes
// ---------------------------------------------------------------------------

/// A key of the keyboard, as far as the client tells keys apart.
#[derive(Debug, Clone, Copy, PartialEq, Eq, Structural)]
pub enum KeyCode {
    Char(char),
    Enter,
    Esc,
    Backspace,
    Other,
}

/// A terminal event.
#[derive(Debug, Clone, Copy, PartialEq, Eq, Structural)]
pub enum InputEvent {
    /// A key event; `press` is false for releases and repeats.
    Key { code: KeyCode, press: bool },
    Resize,
    Other,
}

/// Work that the client's loop does outside the state machine.
#[derive(Debug, Clone)]
pub enum UiAction {
    /// Connect anew to the current base and room.
    Reconnect { clear_history: bool },
    /// Show the avatar of the latest message with one (from the given sender).
    ShowAvatar(Option<String>),
    /// Show the client's own avatar.
    ShowSelfAvatar,
}

/// What a key leaves for the loop to do.
#[derive(Debug, Clone)]
pub enum KeyOutcome {
    Nothing,
    Action(UiAction),
    /// Queue this chat message; then report with `finish_send`.
    Send(WireMessage),
}

pub enum ActionView {
    Reconnect { clear_history: bool },
    ShowAvatar(Option<Seq<char>>),
    ShowSelfAvatar,
}

pub enum OutcomeView {
    Nothing,
    Action(ActionView),
    Send(MessageView),
}

impl View for UiAction {
    type V = ActionView;

    open spec fn view(&self) -> ActionView {
        match self {
            UiAction::Reconnect { clear_history } => ActionView::Reconnect {
                clear_history: *clear_history,
            },
            UiAction::ShowAvatar(f) => ActionView::ShowAvatar(opt_view(*f)),
            UiAction::ShowSelfAvatar => ActionView::ShowSelfAvatar,
        }
    }
}

impl View for KeyOutcome {
    type V = OutcomeView;

    open spec fn view(&self) -> OutcomeView {
        match self {
            KeyOutcome::Nothing => OutcomeView::Nothing,
            KeyOutcome::Action(a) => OutcomeView::Action(a@),
            KeyOutcome::Send(m) => OutcomeView::Send(m@),
        }
    }
}

/// What a line of input asks for.
#[derive(Debug, Clone)]
pub enum Command {
    Empty,
    Ws(String),
    Room(String),
    Reconnect,
    Clear,
    Icat(String),
    Name(String),
    Avatar(String),
    Chat(String),
}

pub enum CommandView {
    Empty,
    Ws(Seq<char>),
    Room(Seq<char>),
    Reconnect,
    Clear,
    Icat(Seq<char>),
    Name(Seq<char>),
    Avatar(Seq<char>),
    Chat(Seq<char>),
}

impl View for Command {
    type V = CommandView;

    open spec fn view(&self) -> CommandView {
        match self {
            Command::Empty => CommandView::Empty,
            Command::Ws(a) => CommandView::Ws(a@),
            Command::Room(a) => CommandView::Room(a@),
            Command::Reconnect => CommandView::Reconnect,
            Command::Clear => CommandView::Clear,
            Command::Icat(a) => CommandView::Icat(a@),
            Command::Name(a) => CommandView::Name(a@),
            Command::Avatar(a) => CommandView::Avatar(a@),
            Command::Chat(t) => CommandView::Chat(t@),
        }
    }
}

/// The argument after a command prefix, trimmed.
pub open spec fn arg_after(t: Seq<char>, prefix: Seq<char>) -> Seq<char> {
    trim(t.skip(prefix.len() as int))
}

/// How a trimmed line of input reads, the first rule that matches winning:
/// `/ws <base>`, `/room <id>`, `/reconnect`, `/clear`, `/icat[filter]`,
/// `/name <name>`, `/avatar <url>`, else a chat message.
pub open spec fn classify(t: Seq<char>) -> CommandView {
    if t.len() == 0 {
        CommandView::Empty
    } else if starts_with(t, "/ws "@) {
        CommandView::Ws(arg_after(t, "/ws "@))
    } else if starts_with(t, "/room "@) {
        CommandView::Room(arg_after(t, "/room "@))
    } else if t == "/reconnect"@ {
        CommandView::Reconnect
    } else if t == "/clear"@ {
        CommandView::Clear
    } else if starts_with(t, "/icat"@) {
        CommandView::Icat(arg_after(t, "/icat"@))
    } else if starts_with(t, "/name "@) {
        CommandView::Name(arg_after(t, "/name "@))
    } else if starts_with(t, "/avatar "@) {
        CommandView::Avatar(arg_after(t, "/avatar "@))
    } else {
        CommandView::Chat(t)
    }
}

/// The trimmed rest of `t` after `prefix`, when `t` begins with it.
fn arg_of(t: &str, prefix: &str) -> (res: Option<String>)
    ensures
        starts_with(t@, prefix@) ==> (res matches Some(a) && a@ == arg_after(t@, prefix@)),
        !starts_with(t@, prefix@) ==> res is None,
{
    match strip_prefix_str(t, prefix) {
        Some(rest) => Some(trim_str(rest.as_str())),
        None => None,
    }
}

/// Reads a trimmed line of input as a command.
pub fn parse_command(text: &str) -> (res: Command)
    ensures
        res@ == classify(text@),
{
    if text.unicode_len() == 0 {
        return Command::Empty;
    }
    if let Some(a) = arg_of(text, "/ws ") {
        return Command::Ws(a);
    }
    if let Some(a) = arg_of(text, "/room ") {
        return Command::Room(a);
    }
    if str_eq(text, "/reconnect") {
        return Command::Reconnect;
    }
    if str_eq(text, "/clear") {
        return Command::Clear;
    }
    if let Some(a) = arg_of(text, "/icat") {
        return Command::Icat(a);
    }
    if let Some(a) = arg_of(text, "/name ") {
        return Command::Name(a);
    }
    if let Some(a) = arg_of(text, "/avatar ") {
        return Command::Avatar(a);
    }
    Command::Chat(copy_str(text))
}

// ---------------------------------------------------------------------------
// Transitions
// ---------------------------------------------------------------------------

pub open spec fn with_status(s: ChatView, status: Status, text: Seq<char>) -> ChatView {
    ChatView { status, status_text: text, ..s }
}

pub open spec fn cleared(s: ChatView) -> ChatView {
    ChatView { input: Seq::empty(), ..s }
}

/// What Enter does in insert mode; `now` stamps an outgoing message.
pub open spec fn enter_step(s: ChatView, now: i64) -> (ChatView, OutcomeView) {
    match classify(trim(s.input)) {
        CommandView::Empty => (s, OutcomeView::Nothing),
        CommandView::Ws(arg) => if arg.len() == 0 {
            (cleared(with_status(s, Status::Error, "usage: /ws <ws://host:port>"@)), OutcomeView::Nothing)
        } else if arg == s.ws_base {
            (
                cleared(with_status(s, Status::Connected, "already using websocket base "@ + s.ws_base)),
                OutcomeView::Nothing,
            )
        } else {
            (
                cleared(
                    ChatView {
                        ws_base: arg,
                        status: Status::Connecting,
                        status_text: "switching websocket base to "@ + arg,
                        ..s
                    },
                ),
                OutcomeView::Action(ActionView::Reconnect { clear_history: false }),
            )
        },
        CommandView::Room(arg) => if arg.len() == 0 {
            (cleared(with_status(s, Status::Error, "usage: /room <room-id>"@)), OutcomeView::Nothing)
        } else if s.connected_room_id == Some(arg) && s.status == Status::Connected {
            (
                cleared(with_status(s, Status::Connected, "already in room "@ + arg)),
                OutcomeView::Nothing,
            )
        } else {
            (
                cleared(
                    ChatView {
                        room_id: arg,
                        status: Status::Connecting,
                        status_text: "switching room to "@ + arg,
                        ..s
                    },
                ),
                OutcomeView::Action(ActionView::Reconnect { clear_history: true }),
            )
        },
        CommandView::Reconnect => (
            cleared(with_status(s, Status::Connecting, "reconnecting"@)),
            OutcomeView::Action(ActionView::Reconnect { clear_history: false }),
        ),
        CommandView::Clear => (
            cleared(
                ChatView {
                    messages: Seq::empty(),
                    status: Status::Connected,
                    status_text: "chat history cleared"@,
                    ..s
                },
            ),
            OutcomeView::Nothing,
        ),
        CommandView::Icat(filter) => (
            cleared(s),
            OutcomeView::Action(
                if filter == "self"@ {
                    ActionView::ShowSelfAvatar
                } else if filter.len() == 0 {
                    ActionView::ShowAvatar(None)
                } else {
                    ActionView::ShowAvatar(Some(filter))
                },
            ),
        ),
        CommandView::Name(arg) => if arg.len() == 0 {
            (cleared(with_status(s, Status::Error, "usage: /name <username>"@)), OutcomeView::Nothing)
        } else {
            (
                cleared(
                    ChatView {
                        sender_id: arg,
                        status: Status::Connected,
                        status_text: "username set to "@ + arg,
                        ..s
                    },
                ),
                OutcomeView::Nothing,
            )
        },
        CommandView::Avatar(arg) => if arg.len() == 0 {
            (
                cleared(with_status(s, Status::Error, "usage: /avatar <https://image-url>"@)),
                OutcomeView::Nothing,
            )
        } else {
            (
                cleared(
                    ChatView {
                        avatar_url: Some(arg),
                        status: Status::Connected,
                        status_text: "avatar URL updated"@,
                        ..s
                    },
                ),
                OutcomeView::Nothing,
            )
        },
        CommandView::Chat(t) => (
            s,
            OutcomeView::Send(
                MessageView {
                    sender_id: s.sender_id,
                    avatar_url: s.avatar_url,
                    payload: encode_utf8(t),
                    created_at: now,
                },
            ),
        ),
    }
}

/// What a key does: in normal mode `q` quits and `i` enters insert mode; in
/// insert mode Esc leaves it, Enter submits the line, Backspace deletes the
/// last character and any character is typed.
pub open spec fn key_step(s: ChatView, key: KeyCode, now: i64) -> (ChatView, OutcomeView) {
    match s.mode {
        Mode::Normal => (
            match key {
                KeyCode::Char(c) => if c == 'q' {
                    ChatView { should_quit: true, ..s }
                } else if c == 'i' {
                    ChatView { mode: Mode::Insert, ..s }
                } else {
                    s
                },
                _ => s,
            },
            OutcomeView::Nothing,
        ),
        Mode::Insert => match key {
            KeyCode::Esc => (ChatView { mode: Mode::Normal, ..s }, OutcomeView::Nothing),
            KeyCode::Enter => enter_step(s, now),
            KeyCode::Backspace => (
                ChatView {
                    input: if s.input.len() > 0 {
                        s.input.drop_last()
                    } else {
                        s.input
                    },
                    ..s
                },
                OutcomeView::Nothing,
            ),
            KeyCode::Char(c) => (ChatView { input: s.input.push(c), ..s }, OutcomeView::Nothing),
            KeyCode::Other => (s, OutcomeView::Nothing),
        },
    }
}

/// The line a chat message shows as.
pub open spec fn line_of_message(m: MessageView) -> LineView {
    LineView {
        sender_id: m.sender_id,
        avatar_url: m.avatar_url,
        body: payload_text(m.payload),
        created_at: m.created_at,
    }
}

/// What the client does once a queued message has been handed to the
/// network (`Ok`) or could not be (`Err` with the reason).
pub open spec fn send_step(s: ChatView, m: MessageView, result: Result<(), Seq<char>>) -> ChatView {
    match result {
        Ok(_) => ChatView { messages: s.messages.push(line_of_message(m)), input: Seq::empty(), ..s },
        Err(e) => with_status(s, Status::Error, "send queue error: "@ + e),
    }
}

pub open spec fn result_view(r: Result<(), String>) -> Result<(), Seq<char>> {
    match r {
        Ok(_) => Ok(()),
        Err(e) => Err(e@),
    }
}

/// An event from the network task.
#[derive(Debug, Clone)]
pub enum NetEvent {
    Incoming(WireMessage),
    Presence(PresenceEvent),
    Error(String),
    Disconnected(String),
    /// The network task stopped.
    Ended,
}

/// The text of the line a presence event shows as.
pub open spec fn presence_body(kind: Seq<char>, sender: Seq<char>) -> Seq<char> {
    if kind == presence_join_kind() {
        sender + " joined room"@
    } else if kind == presence_leave_kind() {
        sender + " left room"@
    } else {
        "presence event from "@ + sender
    }
}

/// What an event from the network does to the state.
pub open spec fn net_step(s: ChatView, ev: NetEvent) -> ChatView {
    match ev {
        NetEvent::Incoming(m) => ChatView { messages: s.messages.push(line_of_message(m@)), ..s },
        NetEvent::Presence(e) => ChatView {
            messages: s.messages.push(
                LineView {
                    sender_id: "system"@,
                    avatar_url: None,
                    body: presence_body(e.kind@, e.sender_id@),
                    created_at: e.created_at,
                },
            ),
            ..s
        },
        NetEvent::Error(t) => with_status(s, Status::Error, t@),
        NetEvent::Disconnected(r) => ChatView {
            status: Status::Disconnected,
            status_text: r@,
            connected_room_id: None,
            ..s
        },
        NetEvent::Ended => ChatView {
            status: Status::Disconnected,
            status_text: "network task ended"@,
            connected_room_id: None,
            ..s
        },
    }
}

/// The status after connecting to the current room succeeded or failed.
pub open spec fn connected_step(s: ChatView, result: Result<(), Seq<char>>) -> ChatView {
    match result {
        Ok(_) => ChatView {
            status: Status::Connected,
            connected_room_id: Some(s.room_id),
            status_text: "connected to "@ + s.room_id + " as "@ + s.sender_id,
            ..s
        },
        Err(e) => with_status(s, Status::Error, e),
    }
}

/// Whether the current base and room give a WebSocket URL.
pub open spec fn url_ok(s: ChatView) -> bool {
    has_ws_scheme(s.ws_base) && url_accepts(ws_url_of(s.ws_base, s.room_id))
}

/// The first step of reconnecting: with a usable URL the state says it is
/// connecting (and forgets the history when asked); without one it shows why.
pub open spec fn reconnect_step(s: ChatView, clear_history: bool) -> ChatView {
    if url_ok(s) {
        ChatView {
            status: Status::Connecting,
            status_text: "connecting "@ + ws_url_of(s.ws_base, s.room_id),
            connected_room_id: None,
            messages: if clear_history {
                Seq::empty()
            } else {
                s.messages
            },
            ..s
        }
    } else if !has_ws_scheme(s.ws_base) {
        with_status(s, Status::Error, UrlError::BadScheme.text())
    } else {
        with_status(s, Status::Error, UrlError::InvalidUrl.text())
    }
}

/// The event a received frame gives (`frame_type` is `text` or `binary`).
pub fn net_event_for_frame(frame: Option<IncomingFrame>, frame_type: &str) -> (res: NetEvent)
    ensures
        match frame {
            Some(IncomingFrame::Chat(m)) => res == NetEvent::Incoming(m),
            Some(IncomingFrame::Presence(e)) => res == NetEvent::Presence(e),
            None => res matches NetEvent::Error(t) && t@ == "invalid "@ + frame_type@
                + " JSON: expected WireMessage or presence event payload"@,
        },
{
    match frame {
        Some(IncomingFrame::Chat(m)) => NetEvent::Incoming(m),
        Some(IncomingFrame::Presence(e)) => NetEvent::Presence(e),
        None => {
            let mut t = copy_str("invalid ");
            append_str(&mut t, frame_type);
            append_str(&mut t, " JSON: expected WireMessage or presence event payload");
            NetEvent::Error(t)
        },
    }
}

/// Why the socket closed, as shown to the user: `socket closed: <reason>`
/// when the close frame carries one, else `socket closed`.
pub fn close_reason(reason: Option<&str>) -> (res: String)
    ensures
        match reason {
            Some(r) => res@ == "socket closed: "@ + r@,
            None => res@ == "socket closed"@,
        },
{
    match reason {
        Some(r) => joined("socket closed: ", r),
        None => copy_str("socket closed"),
    }
}

/// The line a received chat message shows as.
pub fn line_from_message(m: &WireMessage) -> (res: ChatLine)
    ensures
        res@ == line_of_message(m@),
{
    ChatLine {
        sender_id: m.sender_id.clone(),
        avatar_url: clone_opt(&m.avatar_url),
        body: decode_payload(m.payload_cipher.as_slice()),
        created_at: m.created_at,
    }
}

/// The text of the line a presence event shows as.
pub fn presence_line_body(kind: &str, sender: &str) -> (res: String)
    ensures
        res@ == presence_body(kind@, sender@),
{
    if str_eq(kind, "presence.join") {
        let mut s = copy_str(sender);
        append_str(&mut s, " joined room");
        s
    } else if str_eq(kind, "presence.leave") {
        let mut s = copy_str(sender);
        append_str(&mut s, " left room");
        s
    } else {
        let mut s = copy_str("presence event from ");
        append_str(&mut s, sender);
        s
    }
}

/// `prefix` followed by `rest`.
fn joined(prefix: &str, rest: &str) -> (res: String)
    ensures
        res@ == prefix@ + rest@,
{
    let mut s = copy_str(prefix);
    append_str(&mut s, rest);
    s
}

impl ChatState {
    /// The state of a client about to connect to `ws_url`.
    pub fn new(config: CliConfig, ws_url: &str) -> (res: ChatState)
        ensures
            res@ == (ChatView {
                ws_base: config.ws_base@,
                room_id: config.room_id@,
                connected_room_id: None,
                mode: Mode::Normal,
                input: Seq::empty(),
                messages: Seq::empty(),
                status_text: "connecting "@ + ws_url@,
                status: Status::Connecting,
                sender_id: config.sender_id@,
                avatar_url: opt_view(config.avatar_url),
                should_quit: false,
            }),
    {
        let res = ChatState {
            ws_base: config.ws_base,
            room_id: config.room_id,
            connected_room_id: None,
            mode: Mode::Normal,
            input: String::new(),
            messages: Vec::new(),
            status_text: joined("connecting ", ws_url),
            status: Status::Connecting,
            sender_id: config.sender_id,
            avatar_url: config.avatar_url,
            should_quit: false,
        };
        assert(lines_view(res.messages@) =~= Seq::<LineView>::empty());
        res
    }

    fn set_status(&mut self, status: Status, text: String)
        ensures
            final(self)@ == with_status(old(self)@, status, text@),
    {
        self.status = status;
        self.status_text = text;
    }

    fn clear_input(&mut self)
        ensures
            final(self)@ == cleared(old(self)@),
    {
        self.input = String::new();
    }

    fn clear_messages(&mut self)
        ensures
            final(self)@ == (ChatView { messages: Seq::empty(), ..old(self)@ }),
    {
        self.messages = Vec::new();
        assert(lines_view(self.messages@) =~= Seq::<LineView>::empty());
    }

    fn push_line(&mut self, line: ChatLine)
        ensures
            final(self)@ == (ChatView { messages: old(self)@.messages.push(line@), ..old(self)@ }),
    {
        let ghost before = self.messages@;
        self.messages.push(line);
        assert(lines_view(self.messages@) =~= lines_view(before).push(line@));
    }

    /// Enter in insert mode.
    fn submit_input(&mut self, now_ms: i64) -> (out: KeyOutcome)
        requires
            old(self).mode == Mode::Insert,
        ensures
            final(self)@ == enter_step(old(self)@, now_ms).0,
            out@ == enter_step(old(self)@, now_ms).1,
    {
        let text = trim_str(self.input.as_str());
        let command = parse_command(text.as_str());
        match command {
            Command::Empty => KeyOutcome::Nothing,
            Command::Ws(arg) => {
                if arg.unicode_len() == 0 {
                    self.set_status(Status::Error, copy_str("usage: /ws <ws://host:port>"));
                } else if str_eq(arg.as_str(), self.ws_base.as_str()) {
                    let t = joined("already using websocket base ", self.ws_base.as_str());
                    self.set_status(Status::Connected, t);
                } else {
                    let t = joined("switching websocket base to ", arg.as_str());
                    self.ws_base = arg;
                    self.set_status(Status::Connecting, t);
                    self.clear_input();
                    return KeyOutcome::Action(UiAction::Reconnect { clear_history: false });
                }
                self.clear_input();
                KeyOutcome::Nothing
            },
            Command::Room(arg) => {
                let same_room = match &self.connected_room_id {
                    Some(r) => str_eq(r.as_str(), arg.as_str()),
                    None => false,
                };
                let connected = match self.status {
                    Status::Connected => true,
                    _ => false,
                };
                if arg.unicode_len() == 0 {
                    self.set_status(Status::Error, copy_str("usage: /room <room-id>"));
                } else if same_room && connected {
                    let t = joined("already in room ", arg.as_str());
                    self.set_status(Status::Connected, t);
                } else {
                    let t = joined("switching room to ", arg.as_str());
                    self.room_id = arg;
                    self.set_status(Status::Connecting, t);
                    self.clear_input();
                    return KeyOutcome::Action(UiAction::Reconnect { clear_history: true });
                }
                self.clear_input();
                KeyOutcome::Nothing
            },
            Command::Reconnect => {
                self.set_status(Status::Connecting, copy_str("reconnecting"));
                self.clear_input();
                KeyOutcome::Action(UiAction::Reconnect { clear_history: false })
            },
            Command::Clear => {
                self.clear_messages();
                self.set_status(Status::Connected, copy_str("chat history cleared"));
                self.clear_input();
                KeyOutcome::Nothing
            },
            Command::Icat(filter) => {
                self.clear_input();
                if str_eq(filter.as_str(), "self") {
                    return KeyOutcome::Action(UiAction::ShowSelfAvatar);
                }
                if filter.unicode_len() == 0 {
                    return KeyOutcome::Action(UiAction::ShowAvatar(None));
                }
                KeyOutcome::Action(UiAction::ShowAvatar(Some(filter)))
            },
            Command::Name(arg) => {
                if arg.unicode_len() == 0 {
                    self.set_status(Status::Error, copy_str("usage: /name <username>"));
                } else {
                    let t = joined("username set to ", arg.as_str());
                    self.sender_id = arg;
                    self.set_status(Status::Connected, t);
                }
                self.clear_input();
                KeyOutcome::Nothing
            },
            Command::Avatar(arg) => {
                if arg.unicode_len() == 0 {
                    self.set_status(Status::Error, copy_str("usage: /avatar <https://image-url>"));
                } else {
                    self.avatar_url = Some(arg);
                    self.set_status(Status::Connected, copy_str("avatar URL updated"));
                }
                self.clear_input();
                KeyOutcome::Nothing
            },
            Command::Chat(t) => {
                let msg = WireMessage {
                    sender_id: self.sender_id.clone(),
                    avatar_url: clone_opt(&self.avatar_url),
                    payload_cipher: text_payload(t.as_str()),
                    created_at: now_ms,
                };
                KeyOutcome::Send(msg)
            },
        }
    }

    /// Handles a key pressed at time `now_ms`.
    pub fn handle_key_at(&mut self, key: KeyCode, now_ms: i64) -> (out: KeyOutcome)
        ensures
            final(self)@ == key_step(old(self)@, key, now_ms).0,
            out@ == key_step(old(self)@, key, now_ms).1,
            old(self).mode == Mode::Insert ==> match key {
                KeyCode::Char(c) => final(self).input@ == old(self).input@.push(c)
                    && final(self).mode == Mode::Insert,
                _ => true,
            },
    {
        proof {
            if let KeyCode::Char(c) = key {
                if old(self).mode == Mode::Insert {
                    lemma_insert_char_appends(old(self)@, c, now_ms);
                }
            }
        }
        match self.mode {
            Mode::Normal => {
                match key {
                    KeyCode::Char(c) => {
                        if c == 'q' {
                            self.should_quit = true;
                        } else if c == 'i' {
                            self.mode = Mode::Insert;
                        }
                    },
                    _ => {},
                }
                KeyOutcome::Nothing
            },
            Mode::Insert => match key {
                KeyCode::Esc => {
                    self.mode = Mode::Normal;
                    KeyOutcome::Nothing
                },
                KeyCode::Enter => self.submit_input(now_ms),
                KeyCode::Backspace => {
                    let n = self.input.unicode_len();
                    if n > 0 {
                        let t = crate::text::chars_of(self.input.as_str());
                        self.input = crate::text::string_of(t.as_slice(), 0, n - 1);
                        assert(self.input@ =~= old(self)@.input.drop_last());
                    }
                    KeyOutcome::Nothing
                },
                KeyCode::Char(c) => {
                    crate::wrappers::push_char(&mut self.input, c);
                    KeyOutcome::Nothing
                },
                KeyCode::Other => KeyOutcome::Nothing,
            },
        }
    }

    /// Handles a key pressed now, by the wall clock.
    pub fn handle_key(&mut self, key: KeyCode) -> (out: KeyOutcome)
        ensures
            exists|t: i64|
                final(self)@ == key_step(old(self)@, key, t).0 && out@ == key_step(old(self)@, key, t).1,
    {
        let now = now_millis();
        self.handle_key_at(key, now)
    }

    /// Handles a terminal event: key presses go to `handle_key`, everything
    /// else is ignored.
    pub fn handle_event(&mut self, event: InputEvent) -> (out: KeyOutcome)
        ensures
            match event {
                InputEvent::Key { code, press: true } => exists|t: i64|
                    final(self)@ == key_step(old(self)@, code, t).0 && out@ == key_step(
                        old(self)@,
                        code,
                        t,
                    ).1,
                _ => final(self)@ == old(self)@ && out@ == OutcomeView::Nothing,
            },
    {
        match event {
            InputEvent::Key { code, press } => {
                if press {
                    self.handle_key(code)
                } else {
                    KeyOutcome::Nothing
                }
            },
            _ => KeyOutcome::Nothing,
        }
    }

    /// Reports what became of a message that `handle_key` asked to send.
    pub fn finish_send(&mut self, msg: &WireMessage, result: Result<(), String>)
        ensures
            final(self)@ == send_step(old(self)@, msg@, result_view(result)),
    {
        match result {
            Ok(()) => {
                let line = line_from_message(msg);
                self.push_line(line);
                self.clear_input();
            },
            Err(e) => {
                let t = joined("send queue error: ", e.as_str());
                self.set_status(Status::Error, t);
            },
        }
    }

    /// Applies an event from the network task.
    pub fn apply_net_event(&mut self, event: NetEvent)
        ensures
            final(self)@ == net_step(old(self)@, event),
            event matches NetEvent::Error(t) ==> final(self).status == Status::Error
                && final(self).status_text@ == t@,
    {
        match event {
            NetEvent::Incoming(m) => {
                let line = line_from_message(&m);
                self.push_line(line);
            },
            NetEvent::Presence(e) => {
                let body = presence_line_body(e.kind.as_str(), e.sender_id.as_str());
                let line = ChatLine {
                    sender_id: copy_str("system"),
                    avatar_url: None,
                    body,
                    created_at: e.created_at,
                };
                self.push_line(line);
            },
            NetEvent::Error(t) => {
                self.set_status(Status::Error, t);
            },
            NetEvent::Disconnected(r) => {
                self.status = Status::Disconnected;
                self.status_text = r;
                self.connected_room_id = None;
            },
            NetEvent::Ended => {
                self.status = Status::Disconnected;
                self.status_text = copy_str("network task ended");
                self.connected_room_id = None;
            },
        }
    }

    /// Shows how a piece of outside work ended: `Ok` sets the given status
    /// text and `Connected`, `Err` shows the error.
    pub fn apply_status_result(&mut self, result: Result<(), String>, success_status: &str)
        ensures
            final(self)@ == match result {
                Ok(_) => with_status(old(self)@, Status::Connected, success_status@),
                Err(e) => with_status(old(self)@, Status::Error, e@),
            },
    {
        match result {
            Ok(()) => self.set_status(Status::Connected, copy_str(success_status)),
            Err(e) => self.set_status(Status::Error, e),
        }
    }

    /// The first step of reconnecting; returns the URL to connect to, or
    /// `None` when the base and room give none.
    pub fn begin_reconnect(&mut self, clear_history: bool) -> (url: Option<String>)
        ensures
            final(self)@ == reconnect_step(old(self)@, clear_history),
            url_ok(old(self)@) ==> (url matches Some(u) && u@ == ws_url_of(
                old(self)@.ws_base,
                old(self)@.room_id,
            )),
            !url_ok(old(self)@) ==> url is None,
    {
        match room_ws_url(self.ws_base.as_str(), self.room_id.as_str()) {
            Ok(url) => {
                let t = joined("connecting ", url.as_str());
                self.set_status(Status::Connecting, t);
                self.connected_room_id = None;
                if clear_history {
                    self.clear_messages();
                }
                Some(url)
            },
            Err(e) => {
                let t = e.message();
                self.set_status(Status::Error, t);
                None
            },
        }
    }

    /// The last step of (re)connecting: `Ok` when the room's socket opened,
    /// `Err` with the reason when it did not.
    pub fn finish_connect(&mut self, result: Result<(), String>)
        ensures
            final(self)@ == connected_step(old(self)@, result_view(result)),
    {
        match result {
            Ok(()) => {
                let mut t = joined("connected to ", self.room_id.as_str());
                append_str(&mut t, " as ");
                append_str(&mut t, self.sender_id.as_str());
                self.status = Status::Connected;
                self.connected_room_id = Some(self.room_id.clone());
                self.status_text = t;
            },
            Err(e) => self.set_status(Status::Error, e),
        }
    }

    /// The presence event that announces this client, stamped `now_ms`.
    pub fn join_event_at(&self, now_ms: i64) -> (res: PresenceEvent)
        ensures
            res.kind@ == presence_join_kind(),
            res.sender_id@ == self.sender_id@,
            res.avatar_url == self.avatar_url,
            res.created_at == now_ms,
    {
        presence_join(self.sender_id.as_str(), clone_opt(&self.avatar_url), now_ms)
    }

    /// The presence event that announces this client, stamped by the wall clock.
    pub fn join_event(&self) -> (res: PresenceEvent)
        ensures
            res.kind@ == presence_join_kind(),
            res.sender_id@ == self.sender_id@,
            res.avatar_url == self.avatar_url,
    {
        presence_join_now(self.sender_id.as_str(), clone_opt(&self.avatar_url))
    }
}

// ---------------------------------------------------------------------------
// Laws
// ---------------------------------------------------------------------------

/// Typing a character and deleting it again leaves the client as it was.
pub proof fn lemma_type_then_backspace(s: ChatView, c: char, t1: i64, t2: i64)
    requires
        s.mode == Mode::Insert,
    ensures
        key_step(key_step(s, KeyCode::Char(c), t1).0, KeyCode::Backspace, t2).0 == s,
{
    assert(s.input.push(c).drop_last() =~= s.input);
}

/// In insert mode a character key appends exactly that character to the
/// input line, and changes nothing else.
pub proof fn lemma_insert_char_appends(s: ChatView, c: char, now: i64)
    requires
        s.mode == Mode::Insert,
    ensures
        key_step(s, KeyCode::Char(c), now).0.input == s.input.push(c),
        key_step(s, KeyCode::Char(c), now).0.input.len() == s.input.len() + 1,
        key_step(s, KeyCode::Char(c), now).0.input.last() == c,
        key_step(s, KeyCode::Char(c), now).0.mode == Mode::Insert,
        key_step(s, KeyCode::Char(c), now).0.messages == s.messages,
        key_step(s, KeyCode::Char(c), now).1 == OutcomeView::Nothing,
{
}

/// Typing a sequence of characters in insert mode appends exactly them, in
/// order, to the input line.
pub proof fn lemma_typing_appends(s: ChatView, typed: Seq<char>, now: i64)
    requires
        s.mode == Mode::Insert,
    ensures
        typed_state(s, typed, now).input == s.input + typed,
        typed_state(s, typed, now).mode == Mode::Insert,
    decreases typed.len(),
{
    if typed.len() > 0 {
        lemma_typing_appends(s, typed.drop_last(), now);
        let before = typed_state(s, typed.drop_last(), now);
        lemma_insert_char_appends(before, typed.last(), now);
        assert(s.input + typed.drop_last() + seq![typed.last()] =~= s.input + typed);
        assert((s.input + typed.drop_last()).push(typed.last()) =~= s.input + typed);
    } else {
        assert(s.input + typed =~= s.input);
    }
}

/// The state after typing `typed`, one character key at a time.
pub open spec fn typed_state(s: ChatView, typed: Seq<char>, now: i64) -> ChatView
    decreases typed.len(),
{
    if typed.len() == 0 {
        s
    } else {
        key_step(typed_state(s, typed.drop_last(), now), KeyCode::Char(typed.last()), now).0
    }
}

/// A line typed into an empty input and submitted as a chat message is sent
/// as the UTF-8 bytes of the trimmed typed text.
pub proof fn lemma_typed_line_is_sent(s: ChatView, typed: Seq<char>, t1: i64, now: i64)
    requires
        s.mode == Mode::Insert,
        s.input.len() == 0,
        classify(trim(typed)) is Chat,
    ensures
        enter_step(typed_state(s, typed, t1), now).1 matches OutcomeView::Send(m)
            && m.payload == encode_utf8(trim(typed)) && m.sender_id == s.sender_id && m.created_at
            == now,
{
    lemma_typing_appends(s, typed, t1);
    assert(s.input + typed =~= typed);
    lemma_typed_sender_kept(s, typed, t1);
}

proof fn lemma_typed_sender_kept(s: ChatView, typed: Seq<char>, now: i64)
    requires
        s.mode == Mode::Insert,
    ensures
        typed_state(s, typed, now).sender_id == s.sender_id,
    decreases typed.len(),
{
    if typed.len() > 0 {
        lemma_typed_sender_kept(s, typed.drop_last(), now);
        lemma_typing_appends(s, typed.drop_last(), now);
    }
}

/// An error from the network task is always reported: the status turns to
/// `Error` and shows the error's text.
pub proof fn lemma_net_error_reported(s: ChatView, t: String)
    ensures
        net_step(s, NetEvent::Error(t)).status == Status::Error,
        net_step(s, NetEvent::Error(t)).status_text == t@,
        net_step(s, NetEvent::Error(t)).messages == s.messages,
        net_step(s, NetEvent::Error(t)).connected_room_id == s.connected_room_id,
{
}

/// Entering insert mode and leaving it again returns to the same state.
pub proof fn lemma_insert_then_escape(s: ChatView, t1: i64, t2: i64)
    requires
        s.mode == Mode::Normal,
    ensures
        key_step(key_step(s, KeyCode::Char('i'), t1).0, KeyCode::Esc, t2).0 == s,
{
}

/// Every non-empty line that is not a chat message is a command, and
/// submitting it clears the input.
pub proof fn lemma_commands_clear_input(s: ChatView, now: i64)
    requires
        !(classify(trim(s.input)) is Empty),
        !(classify(trim(s.input)) is Chat),
    ensures
        enter_step(s, now).0.input == Seq::<char>::empty(),
{
}

/// A chat line is sent as the UTF-8 bytes of the trimmed input, signed with
/// the client's name and avatar and stamped with the time; once it is on its
/// way, it shows in the client's own list as that same text and the input is
/// cleared.
pub proof fn lemma_chat_roundtrip(s: ChatView, now: i64)
    requires
        classify(trim(s.input)) is Chat,
    ensures
        ({
            let m = MessageView {
                sender_id: s.sender_id,
                avatar_url: s.avatar_url,
                payload: encode_utf8(trim(s.input)),
                created_at: now,
            };
            &&& enter_step(s, now) == (s, OutcomeView::Send(m))
            &&& send_step(s, m, Ok(())).messages == s.messages.push(
                LineView {
                    sender_id: s.sender_id,
                    avatar_url: s.avatar_url,
                    body: trim(s.input),
                    created_at: now,
                },
            )
            &&& send_step(s, m, Ok(())).input == Seq::<char>::empty()
        }),
{
    lemma_text_payload_roundtrip(trim(s.input));
}

/// What one client types shows as the same text on every client that
/// receives the message: the receiver appends one line with the sender's
/// name, avatar, time and text, and keeps every earlier line.
pub proof fn lemma_chat_delivery(sender: ChatView, receiver: ChatView, now: i64, received: WireMessage)
    requires
        classify(trim(sender.input)) is Chat,
        enter_step(sender, now).1 == OutcomeView::Send(received@),
    ensures
        net_step(receiver, NetEvent::Incoming(received)).messages == receiver.messages.push(
            LineView {
                sender_id: sender.sender_id,
                avatar_url: sender.avatar_url,
                body: trim(sender.input),
                created_at: now,
            },
        ),
{
    lemma_text_payload_roundtrip(trim(sender.input));
}

/// Switching to another room names the new room and asks for a reconnection
/// that drops the history of the old one.
pub proof fn lemma_room_switch(s: ChatView, now: i64, room: Seq<char>)
    requires
        classify(trim(s.input)) == CommandView::Room(room),
        room.len() > 0,
        !(s.connected_room_id == Some(room) && s.status == Status::Connected),
    ensures
        enter_step(s, now).0.room_id == room,
        enter_step(s, now).0.status == Status::Connecting,
        enter_step(s, now).1 == OutcomeView::Action(ActionView::Reconnect { clear_history: true }),
{
}

/// After a reconnection whose socket opened, the client is connected to the
/// room it names, under the same name, with its history kept or dropped as
/// asked.
pub proof fn lemma_reconnect_success(s: ChatView, clear_history: bool)
    requires
        url_ok(s),
    ensures
        ({
            let r = connected_step(reconnect_step(s, clear_history), Ok(()));
            &&& r.status == Status::Connected
            &&& r.connected_room_id == Some(s.room_id)
            &&& r.room_id == s.room_id
            &&& r.sender_id == s.sender_id
            &&& r.messages == if clear_history {
                Seq::<LineView>::empty()
            } else {
                s.messages
            }
        }),
{
}

/// Events from the network never disturb what the user is typing: the input,
/// the mode and the settings stay as they were.
pub proof fn lemma_net_events_keep_editing(s: ChatView, event: NetEvent)
    ensures
        net_step(s, event).input == s.input,
        net_step(s, event).mode == s.mode,
        net_step(s, event).ws_base == s.ws_base,
        net_step(s, event).room_id == s.room_id,
        net_step(s, event).sender_id == s.sender_id,
        net_step(s, event).avatar_url == s.avatar_url,
{
}

/// A message that could not be queued leaves the typed line in place and
/// the history unchanged, so it can be sent again.
pub proof fn lemma_failed_send_keeps_input(s: ChatView, m: MessageView, reason: Seq<char>)
    ensures
        send_step(s, m, Err(reason)).input == s.input,
        send_step(s, m, Err(reason)).messages == s.messages,
        send_step(s, m, Err(reason)).status == Status::Error,
{
}

/// Losing the connection always forgets the connected room.
pub proof fn lemma_disconnect_forgets_room(s: ChatView, event: NetEvent)
    requires
        event is Disconnected || event is Ended,
    ensures
        net_step(s, event).status == Status::Disconnected,
        net_step(s, event).connected_room_id is None,
        net_step(s, event).messages == s.messages,
{
}

} // verus!
