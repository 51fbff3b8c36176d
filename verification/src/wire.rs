//! The messages that every client sends and the relay stores: chat messages
//! whose payload is the UTF-8 text, and presence events.

use vstd::prelude::*;
use vstd::utf8::*;
use crate::text::{copy_str, hex_lower, hex_lower_bytes, lemma_hex_lower_shape, str_eq};
use crate::clock::now_millis;
use crate::wrappers::utf8_text;

verus! {

/// A chat message on the wire. `payload_cipher` holds the UTF-8 bytes of the
/// text until end-to-end encryption is added.
#[derive(Debug, Clone)]
pub struct WireMessage {
    pub sender_id: String,
    pub avatar_url: Option<String>,
    pub payload_cipher: Vec<u8>,
    pub created_at: i64,
}

pub struct MessageView {
    pub sender_id: Seq<char>,
    pub avatar_url: Option<Seq<char>>,
    pub payload: Seq<u8>,
    pub created_at: i64,
}

impl View for WireMessage {
    type V = MessageView;

    open spec fn view(&self) -> MessageView {
        MessageView {
            sender_id: self.sender_id@,
            avatar_url: opt_view(self.avatar_url),
            payload: self.payload_cipher@,
            created_at: self.created_at,
        }
    }
}

/// A presence event (`presence.join` or `presence.leave`).
#[derive(Debug, Clone)]
pub struct PresenceEvent {
    pub kind: String,
    pub sender_id: String,
    pub avatar_url: Option<String>,
    pub created_at: i64,
}

/// A frame received from the room, once read as one of the two shapes.
#[derive(Debug, Clone)]
pub enum IncomingFrame {
    Chat(WireMessage),
    Presence(PresenceEvent),
}

pub open spec fn opt_view(o: Option<String>) -> Option<Seq<char>> {
    match o {
        Some(s) => Some(s@),
        None => None,
    }
}

pub open spec fn presence_join_kind() -> Seq<char> {
    "presence.join"@
}

pub open spec fn presence_leave_kind() -> Seq<char> {
    "presence.leave"@
}

/// What a client shows for a payload: its text when it is UTF-8, else two
/// lowercase hexadecimal digits per byte.
pub open spec fn payload_text(bytes: Seq<u8>) -> Seq<char> {
    if valid_utf8(bytes) {
        decode_utf8(bytes)
    } else {
        hex_lower(bytes)
    }
}

/// A copy of an optional string.
pub fn clone_opt(o: &Option<String>) -> (res: Option<String>)
    ensures
        res == *o,
{
    match o {
        Some(s) => Some(s.clone()),
        None => None,
    }
}

/// The text a client shows for a received payload.
pub fn decode_payload(bytes: &[u8]) -> (res: String)
    ensures
        res@ == payload_text(bytes@),
{
    match utf8_text(bytes) {
        Some(s) => s,
        None => hex_lower_bytes(bytes),
    }
}

/// The payload that carries `text`: its UTF-8 bytes.
pub fn text_payload(text: &str) -> (res: Vec<u8>)
    ensures
        res@ == encode_utf8(text@),
{
    text.as_bytes_vec()
}

/// A payload made from a text shows as that same text.
pub proof fn lemma_text_payload_roundtrip(text: Seq<char>)
    ensures
        payload_text(encode_utf8(text)) == text,
{
    encode_utf8_valid_utf8(text);
    encode_utf8_decode_utf8(text);
}

/// A payload that is not UTF-8 shows as two lowercase hexadecimal digits per byte.
pub proof fn lemma_binary_payload_shape(bytes: Seq<u8>)
    requires
        !valid_utf8(bytes),
    ensures
        payload_text(bytes).len() == 2 * bytes.len(),
        forall|i: int|
            0 <= i < payload_text(bytes).len() ==> ('0' <= #[trigger] payload_text(bytes)[i] <= '9'
                || 'a' <= payload_text(bytes)[i] <= 'f'),
{
    lemma_hex_lower_shape(bytes);
}

/// Whether a presence event's kind is one a client accepts.
pub open spec fn is_presence_kind(kind: Seq<char>) -> bool {
    kind == presence_join_kind() || kind == presence_leave_kind()
}

/// How a client reads a received frame, given what it read as a presence
/// event and what it read as a chat message (each `None` where the bytes do
/// not have that shape): a presence event of a known kind wins, else the chat
/// message, else nothing.
pub fn select_frame(presence: Option<PresenceEvent>, chat: Option<WireMessage>) -> (res: Option<
    IncomingFrame,
>)
    ensures
        match presence {
            Some(e) if is_presence_kind(e.kind@) => res == Some(IncomingFrame::Presence(e)),
            _ => match chat {
                Some(m) => res == Some(IncomingFrame::Chat(m)),
                None => res is None,
            },
        },
{
    if let Some(e) = presence {
        if str_eq(e.kind.as_str(), "presence.join") || str_eq(e.kind.as_str(), "presence.leave") {
            return Some(IncomingFrame::Presence(e));
        }
    }
    match chat {
        Some(m) => Some(IncomingFrame::Chat(m)),
        None => None,
    }
}

/// The presence event a client sends when it joins a room.
pub fn presence_join(sender_id: &str, avatar_url: Option<String>, now_ms: i64) -> (res:
    PresenceEvent)
    ensures
        res.kind@ == presence_join_kind(),
        res.sender_id@ == sender_id@,
        res.avatar_url == avatar_url,
        res.created_at == now_ms,
{
    PresenceEvent {
        kind: copy_str("presence.join"),
        sender_id: copy_str(sender_id),
        avatar_url,
        created_at: now_ms,
    }
}

/// The presence event a client sends when it joins a room, stamped with the
/// wall clock.
pub fn presence_join_now(sender_id: &str, avatar_url: Option<String>) -> (res: PresenceEvent)
    ensures
        res.kind@ == presence_join_kind(),
        res.sender_id@ == sender_id@,
        res.avatar_url == avatar_url,
{
    let now = now_millis();
    presence_join(sender_id, avatar_url, now)
}

} // verus!
