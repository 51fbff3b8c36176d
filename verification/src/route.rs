//! The relay's decisions: which room a request path names, whether a request
//! asks for a WebSocket upgrade, what bytes a received frame carries and to
//! which connected peers it is relayed.

use vstd::prelude::*;
use vstd::utf8::encode_utf8;
use crate::text::{chars_of, eq_ignore_ascii_case, eq_ignore_ascii_case_str, str_eq, string_of};
use crate::wire::{is_presence_kind, PresenceEvent, WireMessage};

verus! {

/// Where a request path leads.
#[derive(Debug, Clone)]
pub enum RoomRoute {
    /// `/room/{room_id}` with a non-empty room id.
    Room(String),
    /// A path of another shape (answered with 400).
    BadPath,
    /// A path that does not start with `/`: the URL has no path segments.
    InvalidUrl,
}

pub enum RouteView {
    Room(Seq<char>),
    BadPath,
    InvalidUrl,
}

impl View for RoomRoute {
    type V = RouteView;

    open spec fn view(&self) -> RouteView {
        match self {
            RoomRoute::Room(r) => RouteView::Room(r@),
            RoomRoute::BadPath => RouteView::BadPath,
            RoomRoute::InvalidUrl => RouteView::InvalidUrl,
        }
    }
}

/// The first index at or after `i` that holds `c`, or the length of `s`.
/// (`lemma_next_sep_at` shows it is the first such index.)
pub open spec fn next_sep(s: Seq<char>, c: char, i: int) -> int
    decreases s.len() - i,
{
    if i >= s.len() || i < 0 {
        s.len() as int
    } else if s[i] == c {
        i
    } else {
        next_sep(s, c, i + 1)
    }
}

/// The first `/`-separated segment of `rest`.
pub open spec fn first_segment(rest: Seq<char>) -> Seq<char> {
    rest.take(next_sep(rest, '/', 0))
}

/// The second `/`-separated segment of `rest`, or the empty text when there is
/// none (what `segments.next().unwrap_or_default()` gives).
pub open spec fn second_segment(rest: Seq<char>) -> Seq<char> {
    let e0 = next_sep(rest, '/', 0);
    if e0 < rest.len() {
        rest.subrange(e0 + 1, next_sep(rest, '/', e0 + 1))
    } else {
        Seq::empty()
    }
}

/// The room a path names. Path segments exist when the path starts with `/`;
/// they are the rest of the path split at every `/`.
pub open spec fn route_of(path: Seq<char>) -> RouteView {
    if path.len() == 0 || path[0] != '/' {
        RouteView::InvalidUrl
    } else {
        let rest = path.drop_first();
        if first_segment(rest) == "room"@ && second_segment(rest).len() > 0 {
            RouteView::Room(second_segment(rest))
        } else {
            RouteView::BadPath
        }
    }
}

pub proof fn lemma_next_sep_at(s: Seq<char>, c: char, i: int, k: int)
    requires
        0 <= i <= k <= s.len(),
        forall|j: int| i <= j < k ==> s[j] != c,
        k == s.len() || s[k] == c,
    ensures
        next_sep(s, c, i) == k,
    decreases k - i,
{
    if i < k {
        lemma_next_sep_at(s, c, i + 1, k);
    }
}

proof fn lemma_next_sep_bounds(s: Seq<char>, c: char, i: int)
    requires
        0 <= i <= s.len(),
    ensures
        i <= next_sep(s, c, i) <= s.len(),
        next_sep(s, c, i) < s.len() ==> s[next_sep(s, c, i)] == c,
        forall|j: int| i <= j < next_sep(s, c, i) ==> s[j] != c,
    decreases s.len() - i,
{
    if i < s.len() && s[i] != c {
        lemma_next_sep_bounds(s, c, i + 1);
    }
}

/// Finds `next_sep(cs, '/', i)`.
fn find_slash(cs: &[char], i: usize) -> (k: usize)
    requires
        i <= cs@.len(),
    ensures
        k == next_sep(cs@, '/', i as int),
{
    let mut k = i;
    while k < cs.len() && cs[k] != '/'
        invariant
            i <= k <= cs@.len(),
            forall|j: int| i <= j < k ==> cs@[j] != '/',
        decreases cs@.len() - k,
    {
        k += 1;
    }
    proof {
        lemma_next_sep_at(cs@, '/', i as int, k as int);
    }
    k
}

/// Reads the room out of a request path (`url.path()`): `/room/{room_id}`
/// names room `room_id`; anything after a further `/` is ignored.
pub fn room_route(path: &str) -> (res: RoomRoute)
    ensures
        res@ == route_of(path@),
{
    let cs = chars_of(path);
    if cs.len() == 0 || cs[0] != '/' {
        return RoomRoute::InvalidUrl;
    }
    let rest = string_of(cs.as_slice(), 1, cs.len());
    let rs = chars_of(rest.as_str());
    assert(rs@ =~= path@.drop_first());
    let e0 = find_slash(rs.as_slice(), 0);
    proof {
        lemma_next_sep_bounds(rs@, '/', 0);
    }
    let first = string_of(rs.as_slice(), 0, e0);
    assert(first@ =~= first_segment(rs@));
    let second = if e0 < rs.len() {
        let e1 = find_slash(rs.as_slice(), e0 + 1);
        proof {
            lemma_next_sep_bounds(rs@, '/', e0 + 1);
        }
        string_of(rs.as_slice(), e0 + 1, e1)
    } else {
        String::new()
    };
    assert(second@ =~= second_segment(rs@));
    if str_eq(first.as_str(), "room") && second.unicode_len() > 0 {
        RoomRoute::Room(second)
    } else {
        RoomRoute::BadPath
    }
}

/// The route contract shared by every client: the path `/room/{room_id}`,
/// and any path `/room/{room_id}/...` below it, leads to room `room_id`, for
/// every non-empty room id without `/`.
pub proof fn lemma_room_path_roundtrip(room_id: Seq<char>, tail: Seq<char>)
    requires
        room_id.len() > 0,
        forall|i: int| 0 <= i < room_id.len() ==> room_id[i] != '/',
        tail.len() == 0 || tail[0] == '/',
    ensures
        route_of("/room/"@ + room_id + tail) == RouteView::Room(room_id),
{
    reveal_strlit("/room/");
    reveal_strlit("room");
    reveal_strlit("room/");
    let path = "/room/"@ + room_id + tail;
    let rest = path.drop_first();
    assert(rest =~= "room/"@ + room_id + tail);
    let e1 = (5 + room_id.len()) as int;
    assert forall|j: int| 5 <= j < e1 implies rest[j] != '/' by {
        assert(rest[j] == room_id[j - 5]);
    }
    if tail.len() > 0 {
        assert(rest[e1] == tail[0]);
    }
    lemma_next_sep_at(rest, '/', 0, 4);
    lemma_next_sep_at(rest, '/', 5, e1);
    assert(first_segment(rest) =~= "room"@);
    assert(second_segment(rest) =~= room_id);
}

/// Whether an `Upgrade` header value (missing counts as empty) asks for a
/// WebSocket, compared without regard to ASCII case.
pub fn is_websocket_upgrade(header: Option<&str>) -> (res: bool)
    ensures
        res == eq_ignore_ascii_case(
            match header {
                Some(h) => h@,
                None => Seq::empty(),
            },
            "websocket"@,
        ),
{
    match header {
        Some(h) => eq_ignore_ascii_case_str(h, "websocket"),
        None => {
            let empty = String::new();
            eq_ignore_ascii_case_str(empty.as_str(), "websocket")
        },
    }
}

/// A frame as the relay receives it.
#[derive(Debug, Clone)]
pub enum SocketMessage {
    Text(String),
    Binary(Vec<u8>),
}

/// The bytes a received frame carries: a text frame's UTF-8 encoding, or the
/// binary frame's bytes.
pub fn message_bytes(message: SocketMessage) -> (res: Vec<u8>)
    ensures
        res@ == match message {
            SocketMessage::Text(t) => encode_utf8(t@),
            SocketMessage::Binary(b) => b@,
        },
{
    match message {
        SocketMessage::Text(t) => t.as_str().as_bytes_vec(),
        SocketMessage::Binary(b) => b,
    }
}

/// The positions, among the room's connected sockets, that receive a frame
/// sent by the socket at position `sender` (if it is among them): every
/// position but the sender's, in increasing order.
pub open spec fn relay_order(peer_count: nat, sender: Option<usize>) -> Seq<usize>
    decreases peer_count,
{
    if peer_count == 0 {
        Seq::empty()
    } else {
        let prev = relay_order((peer_count - 1) as nat, sender);
        if sender == Some((peer_count - 1) as usize) {
            prev
        } else {
            prev.push((peer_count - 1) as usize)
        }
    }
}

/// The relay law: a frame reaches every other socket of the room, each once
/// and in order of position, and never the sender.
pub proof fn lemma_relay_reaches_others(peer_count: nat, sender: Option<usize>)
    requires
        peer_count <= usize::MAX + 1,
    ensures
        forall|i: usize|
            #[trigger] relay_order(peer_count, sender).contains(i) <==> (i < peer_count && sender
                != Some(i)),
        forall|j: int, k: int|
            0 <= j < k < relay_order(peer_count, sender).len() ==> relay_order(peer_count, sender)[j]
                < relay_order(peer_count, sender)[k],
        forall|k: int|
            0 <= k < relay_order(peer_count, sender).len() ==> #[trigger] relay_order(
                peer_count,
                sender,
            )[k] < peer_count,
    decreases peer_count,
{
    if peer_count > 0 {
        let n1 = (peer_count - 1) as nat;
        lemma_relay_reaches_others(n1, sender);
        let prev = relay_order(n1, sender);
        let last = (peer_count - 1) as usize;
        if sender != Some(last) {
            let cur = prev.push(last);
            assert forall|i: usize| #[trigger] cur.contains(i) <==> (i < peer_count && sender != Some(i)) by {
                if i == last {
                    assert(cur[prev.len() as int] == i);
                } else {
                    if cur.contains(i) {
                        let k = choose|k: int| 0 <= k < cur.len() && cur[k] == i;
                        assert(k < prev.len());
                        assert(prev[k] == i);
                        assert(prev.contains(i));
                    }
                    if i < n1 && sender != Some(i) {
                        assert(prev.contains(i));
                        let k = choose|k: int| 0 <= k < prev.len() && prev[k] == i;
                        assert(cur[k] == i);
                    }
                }
            }
        } else {
            assert forall|i: usize| #[trigger] prev.contains(i) <==> (i < peer_count && sender != Some(i)) by {
                if prev.contains(i) {
                    assert(i < n1);
                }
            }
        }
    }
}

/// The positions of the sockets that receive a frame: all `peer_count`
/// sockets of the room except the sender's, in increasing order.
pub fn relay_targets(peer_count: usize, sender: Option<usize>) -> (res: Vec<usize>)
    ensures
        res@ == relay_order(peer_count as nat, sender),
        forall|i: usize| #[trigger] res@.contains(i) <==> (i < peer_count && sender != Some(i)),
        forall|j: int, k: int| 0 <= j < k < res@.len() ==> res@[j] < res@[k],
{
    let mut res: Vec<usize> = Vec::new();
    let mut i: usize = 0;
    while i < peer_count
        invariant
            i <= peer_count,
            res@ == relay_order(i as nat, sender),
        decreases peer_count - i,
    {
        let skip = match sender {
            Some(s) => s == i,
            None => false,
        };
        if !skip {
            res.push(i);
        }
        i += 1;
    }
    proof {
        lemma_relay_reaches_others(peer_count as nat, sender);
    }
    res
}

/// What the relay does with a received frame.
#[derive(Debug, Clone)]
pub enum FrameAction {
    /// A chat message: store it, then relay the frame.
    StoreAndRelay(WireMessage),
    /// A presence event (`presence.join` or `presence.leave`): relay the
    /// frame without storing anything.
    RelayOnly,
    /// Neither: refuse the frame.
    Reject,
}

/// Decides what the relay does with a frame, given what it read as a chat
/// message and what it read as a presence event (each `None` where the frame
/// does not have that shape): a chat message is stored and relayed, a
/// presence event of a known kind is relayed only, anything else is refused.
pub fn frame_action(chat: Option<WireMessage>, presence: Option<PresenceEvent>) -> (res: FrameAction)
    ensures
        match chat {
            Some(m) => res == FrameAction::StoreAndRelay(m),
            None => match presence {
                Some(e) => if is_presence_kind(e.kind@) {
                    res == FrameAction::RelayOnly
                } else {
                    res == FrameAction::Reject
                },
                None => res == FrameAction::Reject,
            },
        },
{
    match chat {
        Some(m) => FrameAction::StoreAndRelay(m),
        None => match presence {
            Some(e) => {
                if str_eq(e.kind.as_str(), "presence.join") || str_eq(e.kind.as_str(), "presence.leave") {
                    FrameAction::RelayOnly
                } else {
                    FrameAction::Reject
                }
            },
            None => FrameAction::Reject,
        },
    }
}

} // verus!
