//! Calls into std and into the outside crates that the library's logic makes.
//! Verus believes the contract of each item here; the doc comment of each says
//! what it claims of the function it calls.

use base64::Engine;
use chrono::Timelike;
use vstd::prelude::*;
use vstd::utf8::*;
use crate::text::{chrono_max_millis, chrono_min_millis, day_second, percent_decoded};

verus! {

/// Calls `String::push`, which appends one character at the end of the string.
#[verifier::external_body]
pub(crate) fn push_char(s: &mut String, c: char)
    ensures
        final(s)@ == old(s)@.push(c),
{
    s.push(c);
}

/// Calls `std::str::from_utf8` and copies the text out. The claim: it
/// succeeds exactly on well-formed UTF-8 (vstd's `valid_utf8`), and the text
/// it gives back is the decoding of the bytes.
#[verifier::external_body]
pub(crate) fn utf8_text(bytes: &[u8]) -> (res: Option<String>)
    ensures
        res is Some <==> valid_utf8(bytes@),
        res matches Some(s) ==> s@ == decode_utf8(bytes@),
{
    match std::str::from_utf8(bytes) {
        Ok(s) => Some(s.to_string()),
        Err(_) => None,
    }
}

/// What `url::Url::parse` decides about a string: whether it accepts it as a URL.
pub uninterp spec fn url_accepts(s: Seq<char>) -> bool;

/// Calls `url::Url::parse` and reports whether it accepted `s`. The claim: the
/// answer depends on the text of `s` alone.
#[verifier::external_body]
pub(crate) fn url_parses(s: &str) -> (ok: bool)
    ensures
        ok == url_accepts(s@),
{
    url::Url::parse(s).is_ok()
}

/// What `base64::engine::general_purpose::STANDARD.decode` gives for its input
/// bytes: the decoded bytes, or `None` where it returns a `DecodeError`.
pub uninterp spec fn base64_standard_decoded(input: Seq<u8>) -> Option<Seq<u8>>;

/// Calls `STANDARD.decode` of the base64 crate on the UTF-8 bytes of `s`. The
/// claim: the result depends on those bytes alone; `None` stands for its
/// `DecodeError`.
#[verifier::external_body]
pub(crate) fn base64_decode(s: &str) -> (res: Option<Vec<u8>>)
    ensures
        match base64_standard_decoded(encode_utf8(s@)) {
            Some(d) => res matches Some(v) && v@ == d,
            None => res is None,
        },
{
    match base64::engine::general_purpose::STANDARD.decode(s) {
        Ok(v) => Some(v),
        Err(_) => None,
    }
}

/// Calls `percent_encoding::percent_decode_str` and collects the bytes. The
/// claim, as its source shows: every `%` followed by two hexadecimal digits
/// becomes the byte they spell, every other byte of the UTF-8 encoding of `s`
/// is kept.
#[verifier::external_body]
pub(crate) fn percent_decode(s: &str) -> (res: Vec<u8>)
    ensures
        res@ == percent_decoded(encode_utf8(s@)),
{
    percent_encoding::percent_decode_str(s).collect::<Vec<u8>>()
}

/// `std::time::SystemTime`, carried through opaquely.
#[verifier::external_type_specification]
#[verifier::external_body]
pub struct ExSystemTime(std::time::SystemTime);

/// Calls `std::time::SystemTime::now`: the wall clock. Nothing is claimed of
/// the value.
#[verifier::external_body]
pub(crate) fn system_now() -> (t: std::time::SystemTime) {
    std::time::SystemTime::now()
}

/// Calls `SystemTime::duration_since(UNIX_EPOCH)` and takes the duration
/// apart into whole seconds and nanoseconds: `Ok` for a time at or after the
/// epoch, `Err` with the distance before it otherwise. The claim, as std
/// documents `Duration::subsec_nanos`: the nanoseconds are below one second.
#[verifier::external_body]
pub(crate) fn since_epoch(t: &std::time::SystemTime) -> (res: Result<(u64, u32), (u64, u32)>)
    ensures
        match res {
            Ok((_, n)) => n < 1_000_000_000,
            Err((_, n)) => n < 1_000_000_000,
        },
{
    match t.duration_since(std::time::UNIX_EPOCH) {
        Ok(d) => Ok((d.as_secs(), d.subsec_nanos())),
        Err(e) => Err((e.duration().as_secs(), e.duration().subsec_nanos())),
    }
}

/// Calls `chrono::DateTime::from_timestamp_millis` and reads the hour, minute
/// and second of the result. The claim, as chrono's source shows: it succeeds
/// exactly from the first millisecond of `DateTime::<Utc>::MIN_UTC` (year
/// -262143) to the last of `MAX_UTC` (year 262142), and the time of day is that
/// of the non-leap second `ms` div 1000 (rounded towards minus infinity)
/// within its UTC day.
#[verifier::external_body]
pub(crate) fn time_of_day(ms: i64) -> (res: Option<(u32, u32, u32)>)
    ensures
        res is Some <==> chrono_min_millis() <= ms <= chrono_max_millis(),
        res matches Some((h, m, s)) ==> {
            &&& h == day_second(ms as int) / 3600
            &&& m == (day_second(ms as int) % 3600) / 60
            &&& s == day_second(ms as int) % 60
        },
{
    match chrono::DateTime::from_timestamp_millis(ms) {
        Some(dt) => Some((dt.hour(), dt.minute(), dt.second())),
        None => None,
    }
}

} // verus!
