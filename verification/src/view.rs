//! What the client's screen shows, as plain text: the header, the message
//! list with its time stamps, the selected row and the footer.

use vstd::prelude::*;
use crate::client::{ChatLine, ChatState, ChatView, LineView, Mode, Status};
use crate::clock::clock_label;
use crate::text::{append_str, chrono_max_millis, chrono_min_millis, clock_text, copy_str};

verus! {

/// The colour a status is shown in.
#[derive(Debug, Clone, Copy, PartialEq, Eq, Structural)]
pub enum StatusColor {
    Green,
    Blue,
    Red,
}

pub open spec fn status_color_of(s: Status) -> StatusColor {
    match s {
        Status::Connected => StatusColor::Green,
        Status::Connecting => StatusColor::Blue,
        Status::Error => StatusColor::Red,
        Status::Disconnected => StatusColor::Red,
    }
}

/// Connected is green, connecting blue, errors and disconnection red.
pub fn status_color(s: Status) -> (res: StatusColor)
    ensures
        res == status_color_of(s),
{
    match s {
        Status::Connected => StatusColor::Green,
        Status::Connecting => StatusColor::Blue,
        Status::Error => StatusColor::Red,
        Status::Disconnected => StatusColor::Red,
    }
}

pub open spec fn mode_text(m: Mode) -> Seq<char> {
    match m {
        Mode::Normal => "NORMAL"@,
        Mode::Insert => "INSERT"@,
    }
}

/// The label of an input mode.
pub fn mode_label(m: Mode) -> (res: &'static str)
    ensures
        res@ == mode_text(m),
{
    match m {
        Mode::Normal => "NORMAL",
        Mode::Insert => "INSERT",
    }
}

/// A piece of the header; `status` marks the piece shown in the status colour.
#[derive(Debug, Clone)]
pub struct HeaderSpan {
    pub text: String,
    pub status: bool,
}

/// The texts of the header, in order; the status text is the twelfth.
pub open spec fn header_texts(s: ChatView) -> Seq<Seq<char>> {
    seq![
        "Base: "@,
        s.ws_base,
        " | "@,
        "User: "@,
        s.sender_id,
        " | "@,
        "Avatar: "@,
        if s.avatar_url is Some {
            "set"@
        } else {
            "none"@
        },
        " | "@,
        "Room: "@,
        s.room_id,
        " | Status: "@,
        s.status_text,
        " | Mode: "@,
        mode_text(s.mode),
    ]
}

pub open spec fn header_status_index() -> int {
    12
}

fn span(text: String, status: bool) -> (res: HeaderSpan)
    ensures
        res.text@ == text@,
        res.status == status,
{
    HeaderSpan { text, status }
}

/// The time stamp of a line: `[HH:MM:SS] ` when chrono can represent its
/// time (years -262143 to 262142), else `[--:--:--] `.
pub open spec fn stamp_text(created_at: i64) -> Seq<char> {
    "["@ + (if chrono_min_millis() <= created_at <= chrono_max_millis() {
        clock_text(created_at as int)
    } else {
        "--:--:--"@
    }) + "] "@
}

/// A row of the message list.
#[derive(Debug, Clone)]
pub struct MessageRow {
    pub stamp: String,
    pub sender: String,
    pub body: String,
}

/// Whether a row shows a line: its stamp, `sender:`, and the body.
pub open spec fn row_shows(r: MessageRow, l: LineView) -> bool {
    &&& r.stamp@ == stamp_text(l.created_at)
    &&& r.sender@ == l.sender_id + ":"@
    &&& r.body@ == l.body
}

impl ChatState {
    /// The header of the screen.
    pub fn header(&self) -> (res: Vec<HeaderSpan>)
        ensures
            res@.len() == header_texts(self@).len(),
            forall|i: int| 0 <= i < res@.len() ==> #[trigger] res@[i].text@ == header_texts(self@)[i],
            forall|i: int| 0 <= i < res@.len() ==> (#[trigger] res@[i].status <==> i == header_status_index()),
    {
        let mut v: Vec<HeaderSpan> = Vec::new();
        v.push(span(copy_str("Base: "), false));
        v.push(span(self.ws_base.clone(), false));
        v.push(span(copy_str(" | "), false));
        v.push(span(copy_str("User: "), false));
        v.push(span(self.sender_id.clone(), false));
        v.push(span(copy_str(" | "), false));
        v.push(span(copy_str("Avatar: "), false));
        let avatar = if self.avatar_url.is_some() {
            copy_str("set")
        } else {
            copy_str("none")
        };
        v.push(span(avatar, false));
        v.push(span(copy_str(" | "), false));
        v.push(span(copy_str("Room: "), false));
        v.push(span(self.room_id.clone(), false));
        v.push(span(copy_str(" | Status: "), false));
        v.push(span(self.status_text.clone(), true));
        v.push(span(copy_str(" | Mode: "), false));
        v.push(span(copy_str(mode_label(self.mode)), false));
        v
    }

    /// The rows of the message list, one per line, in order.
    pub fn message_rows(&self) -> (res: Vec<MessageRow>)
        ensures
            res@.len() == self@.messages.len(),
            forall|i: int| 0 <= i < res@.len() ==> row_shows(#[trigger] res@[i], self@.messages[i]),
    {
        let n = self.messages.len();
        let mut rows: Vec<MessageRow> = Vec::new();
        let mut i: usize = 0;
        while i < n
            invariant
                n == self.messages@.len(),
                i <= n,
                rows@.len() == i,
                forall|j: int| 0 <= j < i ==> row_shows(#[trigger] rows@[j], self@.messages[j]),
            decreases n - i,
        {
            let line: &ChatLine = &self.messages[i];
            rows.push(message_row(line));
            i += 1;
        }
        rows
    }

    /// The row the message list keeps in view: the latest one.
    pub fn selected_row(&self) -> (res: Option<usize>)
        ensures
            self@.messages.len() == 0 ==> res is None,
            self@.messages.len() > 0 ==> res == Some((self@.messages.len() - 1) as usize),
    {
        if self.messages.len() == 0 {
            None
        } else {
            Some(self.messages.len() - 1)
        }
    }
}

/// The row that shows a line.
pub fn message_row(line: &ChatLine) -> (res: MessageRow)
    ensures
        row_shows(res, line@),
{
    let mut stamp = copy_str("[");
    match clock_label(line.created_at) {
        Some(t) => append_str(&mut stamp, t.as_str()),
        None => append_str(&mut stamp, "--:--:--"),
    }
    append_str(&mut stamp, "] ");
    let mut sender = copy_str(line.sender_id.as_str());
    append_str(&mut sender, ":");
    MessageRow { stamp, sender, body: line.body.clone() }
}

/// The title of the input box.
pub fn footer_title() -> (res: &'static str)
    ensures
        res@ == "Input (i: insert, Esc: normal, q: quit, /ws, /room, /name, /avatar, /icat, /reconnect, /clear)"@,
{
    "Input (i: insert, Esc: normal, q: quit, /ws, /room, /name, /avatar, /icat, /reconnect, /clear)"
}

} // verus!
