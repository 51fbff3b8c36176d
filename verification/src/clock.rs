//! Time: the wall clock in milliseconds since the epoch, and the `HH:MM:SS`
//! label of an instant.

use vstd::prelude::*;
use crate::text::{chrono_max_millis, chrono_min_millis, clock_text, two_digits};
use crate::wrappers::{push_char, since_epoch, system_now, time_of_day};

verus! {

/// The millisecond, rounded towards minus infinity, of an instant `secs`
/// seconds and `nanos` nanoseconds after (`after`) or before the epoch.
pub open spec fn offset_millis(after: bool, secs: u64, nanos: u32) -> int {
    if after {
        secs * 1000 + nanos / 1_000_000
    } else {
        -(secs * 1000 + (nanos + 999_999) / 1_000_000)
    }
}

/// `x` saturated to the range of `i64`.
pub open spec fn clamp_i64(x: int) -> i64 {
    if x > i64::MAX {
        i64::MAX
    } else if x < i64::MIN {
        i64::MIN
    } else {
        x as i64
    }
}

/// Milliseconds since the epoch of an instant given as a distance from it,
/// saturated to `i64`.
pub fn epoch_millis(after: bool, secs: u64, nanos: u32) -> (ms: i64)
    requires
        nanos < 1_000_000_000,
    ensures
        ms == clamp_i64(offset_millis(after, secs, nanos)),
{
    let sub: u128 = if after {
        nanos as u128 / 1_000_000
    } else {
        (nanos as u128 + 999_999) / 1_000_000
    };
    let total: u128 = secs as u128 * 1000 + sub;
    if after {
        if total > 9223372036854775807u128 {
            i64::MAX
        } else {
            total as i64
        }
    } else {
        if total >= 9223372036854775808u128 {
            i64::MIN
        } else {
            -(total as i64)
        }
    }
}

/// The wall clock, in milliseconds since the epoch (negative before it),
/// saturated to `i64`. Nothing is claimed of the reading itself.
pub fn now_millis() -> (ms: i64) {
    let t = system_now();
    match since_epoch(&t) {
        Ok((secs, nanos)) => epoch_millis(true, secs, nanos),
        Err((secs, nanos)) => epoch_millis(false, secs, nanos),
    }
}

/// The two decimal digits of `n < 100`.
fn two_digit_text(s: &mut String, n: u32)
    requires
        n < 100,
    ensures
        final(s)@ == old(s)@ + two_digits(n as int),
{
    push_char(s, ((n / 10) as u8 + 48) as char);
    push_char(s, ((n % 10) as u8 + 48) as char);
    assert(final(s)@ =~= old(s)@ + two_digits(n as int));
}

/// `HH:MM:SS` of the UTC time of day of `ms`, where chrono can represent
/// the instant.
pub fn clock_label(ms: i64) -> (res: Option<String>)
    ensures
        res is Some <==> chrono_min_millis() <= ms <= chrono_max_millis(),
        res matches Some(s) ==> s@ == clock_text(ms as int),
{
    match time_of_day(ms) {
        Some((h, m, sec)) => {
            let mut s = String::new();
            two_digit_text(&mut s, h);
            push_char(&mut s, ':');
            two_digit_text(&mut s, m);
            push_char(&mut s, ':');
            two_digit_text(&mut s, sec);
            assert(s@ =~= clock_text(ms as int));
            Some(s)
        },
        None => None,
    }
}

} // verus!
