//! Text operations on character sequences: trimming, prefixes and suffixes,
//! ASCII case folding and number formatting, each with its mathematical
//! definition over `Seq<char>`.

use vstd::prelude::*;
use crate::wrappers::push_char;

verus! {

// ---------------------------------------------------------------------------
// Specifications
// ---------------------------------------------------------------------------

/// The Unicode `White_Space` property, which `char::is_whitespace` tests.
pub open spec fn is_ws(c: char) -> bool {
    let u = c as u32;
    ||| 0x9 <= u <= 0xd
    ||| u == 0x20
    ||| u == 0x85
    ||| u == 0xa0
    ||| u == 0x1680
    ||| 0x2000 <= u <= 0x200a
    ||| u == 0x2028
    ||| u == 0x2029
    ||| u == 0x202f
    ||| u == 0x205f
    ||| u == 0x3000
}

/// `s` without its leading whitespace.
pub open spec fn trim_start(s: Seq<char>) -> Seq<char>
    decreases s.len(),
{
    if s.len() > 0 && is_ws(s[0]) {
        trim_start(s.drop_first())
    } else {
        s
    }
}

/// `s` without its trailing whitespace.
pub open spec fn trim_end(s: Seq<char>) -> Seq<char>
    decreases s.len(),
{
    if s.len() > 0 && is_ws(s.last()) {
        trim_end(s.drop_last())
    } else {
        s
    }
}

/// `s` without whitespace at either end (what `str::trim` gives).
pub open spec fn trim(s: Seq<char>) -> Seq<char> {
    trim_end(trim_start(s))
}

/// `s` without any number of trailing `c` (what `str::trim_end_matches(c)` gives).
pub open spec fn trim_end_char(s: Seq<char>, c: char) -> Seq<char>
    decreases s.len(),
{
    if s.len() > 0 && s.last() == c {
        trim_end_char(s.drop_last(), c)
    } else {
        s
    }
}

/// `s` without any number of leading copies of the non-empty pattern `p`
/// (what `str::trim_start_matches(p)` gives).
pub open spec fn trim_start_seq(s: Seq<char>, p: Seq<char>) -> Seq<char>
    decreases s.len(),
{
    if p.len() > 0 && starts_with(s, p) {
        trim_start_seq(s.skip(p.len() as int), p)
    } else {
        s
    }
}

pub open spec fn starts_with(s: Seq<char>, p: Seq<char>) -> bool {
    p.len() <= s.len() && s.take(p.len() as int) == p
}

pub open spec fn ends_with(s: Seq<char>, p: Seq<char>) -> bool {
    p.len() <= s.len() && s.skip(s.len() - p.len()) == p
}

/// `char::to_ascii_lowercase`: `A`..`Z` become `a`..`z`, everything else stays.
pub open spec fn ascii_lower(c: char) -> char {
    if 'A' <= c <= 'Z' {
        ((c as u32) + 32) as char
    } else {
        c
    }
}

pub open spec fn ascii_lower_seq(s: Seq<char>) -> Seq<char> {
    Seq::new(s.len(), |i: int| ascii_lower(s[i]))
}

/// Equality up to ASCII case, character by character.
pub open spec fn eq_ignore_ascii_case(a: Seq<char>, b: Seq<char>) -> bool {
    ascii_lower_seq(a) == ascii_lower_seq(b)
}

/// The decimal digit character for `d` in `0..10`.
pub open spec fn digit_char(d: int) -> char {
    (d + 48) as char
}

/// The lowercase hexadecimal digit character for `d` in `0..16`.
pub open spec fn hex_char(d: int) -> char {
    if d < 10 {
        (d + 48) as char
    } else {
        (d + 87) as char
    }
}

/// The decimal digits of a natural number, without leading zeros.
pub open spec fn decimal_digits(n: nat) -> Seq<char>
    decreases n,
{
    if n < 10 {
        seq![digit_char(n as int)]
    } else {
        decimal_digits(n / 10).push(digit_char((n % 10) as int))
    }
}

/// How `{}` formats an integer: its digits, after `-` when negative.
pub open spec fn decimal(n: int) -> Seq<char> {
    if n < 0 {
        seq!['-'] + decimal_digits((-n) as nat)
    } else {
        decimal_digits(n as nat)
    }
}

/// The lowest `width` hexadecimal digits of `n`, most significant first.
pub open spec fn hex_fixed(n: nat, width: nat) -> Seq<char>
    decreases width,
{
    if width == 0 {
        Seq::empty()
    } else {
        hex_fixed(n / 16, (width - 1) as nat).push(hex_char((n % 16) as int))
    }
}

/// Two lowercase hexadecimal digits per byte (what `{:02x}` gives per byte).
pub open spec fn hex_lower(bytes: Seq<u8>) -> Seq<char>
    decreases bytes.len(),
{
    if bytes.len() == 0 {
        Seq::empty()
    } else {
        hex_lower(bytes.drop_last()) + hex_fixed(bytes.last() as nat, 2)
    }
}

/// The two decimal digits of `n` in `0..100`.
pub open spec fn two_digits(n: int) -> Seq<char> {
    seq![digit_char(n / 10), digit_char(n % 10)]
}

/// The second of its UTC day in which the instant `ms` milliseconds after
/// the epoch falls (division rounds towards minus infinity).
pub open spec fn day_second(ms: int) -> int {
    (ms / 1000) % 86400
}

/// `HH:MM:SS` of the UTC time of day of `ms` milliseconds after the epoch.
pub open spec fn clock_text(ms: int) -> Seq<char> {
    let secs = day_second(ms);
    two_digits(secs / 3600) + seq![':'] + two_digits((secs % 3600) / 60) + seq![':'] + two_digits(
        secs % 60,
    )
}

/// The first millisecond chrono can represent: -262143-01-01T00:00:00Z.
pub open spec fn chrono_min_millis() -> int {
    -8334601228800000
}

/// The last millisecond chrono can represent: 262142-12-31T23:59:59.999Z.
pub open spec fn chrono_max_millis() -> int {
    8210266876799999
}

/// The value of an ASCII hexadecimal digit byte, if it is one.
pub open spec fn hex_value(b: u8) -> Option<int> {
    if 48 <= b <= 57 {
        Some(b - 48)
    } else if 65 <= b <= 70 {
        Some(b - 55)
    } else if 97 <= b <= 102 {
        Some(b - 87)
    } else {
        None
    }
}

/// Percent-decoding: `%` and two hexadecimal digits become one byte, every
/// other byte stays.
pub open spec fn percent_decoded(s: Seq<u8>) -> Seq<u8>
    decreases s.len(),
{
    if s.len() == 0 {
        Seq::empty()
    } else if s[0] == 37 && s.len() >= 3 && hex_value(s[1]) is Some && hex_value(s[2]) is Some {
        seq![(hex_value(s[1])->0 * 16 + hex_value(s[2])->0) as u8] + percent_decoded(s.skip(3))
    } else {
        seq![s[0]] + percent_decoded(s.drop_first())
    }
}

// ---------------------------------------------------------------------------
// Lemmas
// ---------------------------------------------------------------------------

proof fn lemma_trim_start_skip(s: Seq<char>, k: int)
    requires
        0 <= k <= s.len(),
        forall|i: int| 0 <= i < k ==> is_ws(#[trigger] s[i]),
    ensures
        trim_start(s) == trim_start(s.skip(k)),
    decreases k,
{
    if k > 0 {
        assert(s.skip(1) =~= s.drop_first());
        lemma_trim_start_skip(s.drop_first(), k - 1);
        assert(s.drop_first().skip(k - 1) =~= s.skip(k));
    } else {
        assert(s.skip(0) =~= s);
    }
}

proof fn lemma_trim_end_take(s: Seq<char>, k: int)
    requires
        0 <= k <= s.len(),
        forall|i: int| k <= i < s.len() ==> is_ws(#[trigger] s[i]),
    ensures
        trim_end(s) == trim_end(s.take(k)),
    decreases s.len() - k,
{
    if k < s.len() {
        lemma_trim_end_take(s.drop_last(), k);
        assert(s.drop_last().take(k) =~= s.take(k));
    } else {
        assert(s.take(k) =~= s);
    }
}

proof fn lemma_trim_end_char_take(s: Seq<char>, c: char, k: int)
    requires
        0 <= k <= s.len(),
        forall|i: int| k <= i < s.len() ==> #[trigger] s[i] == c,
    ensures
        trim_end_char(s, c) == trim_end_char(s.take(k), c),
    decreases s.len() - k,
{
    if k < s.len() {
        lemma_trim_end_char_take(s.drop_last(), c, k);
        assert(s.drop_last().take(k) =~= s.take(k));
    } else {
        assert(s.take(k) =~= s);
    }
}

/// Every character of `hex_lower(bytes)` is a lowercase hexadecimal digit, and
/// there are two of them per byte.
pub proof fn lemma_hex_lower_shape(bytes: Seq<u8>)
    ensures
        hex_lower(bytes).len() == 2 * bytes.len(),
        forall|i: int|
            0 <= i < hex_lower(bytes).len() ==> ('0' <= #[trigger] hex_lower(bytes)[i] <= '9'
                || 'a' <= hex_lower(bytes)[i] <= 'f'),
    decreases bytes.len(),
{
    if bytes.len() > 0 {
        lemma_hex_lower_shape(bytes.drop_last());
        let b = bytes.last() as nat;
        let h = hex_fixed(b, 2);
        assert(h == seq![hex_char(((b / 16) % 16) as int), hex_char((b % 16) as int)]) by {
            reveal_with_fuel(hex_fixed, 3);
            assert(hex_fixed(b / 16 / 16, 0) =~= Seq::<char>::empty());
        }
        let prev = hex_lower(bytes.drop_last());
        assert forall|i: int| 0 <= i < hex_lower(bytes).len() implies ('0' <= #[trigger] hex_lower(
            bytes,
        )[i] <= '9' || 'a' <= hex_lower(bytes)[i] <= 'f') by {
            if i >= prev.len() {
                assert(hex_lower(bytes)[i] == h[i - prev.len()]);
            } else {
                assert(hex_lower(bytes)[i] == prev[i]);
            }
        }
    }
}

// ---------------------------------------------------------------------------
// Executable operations
// ---------------------------------------------------------------------------

/// The characters of `s`, in order.
pub fn chars_of(s: &str) -> (v: Vec<char>)
    ensures
        v@ == s@,
{
    let n = s.unicode_len();
    let mut v: Vec<char> = Vec::new();
    let mut i: usize = 0;
    while i < n
        invariant
            n == s@.len(),
            i <= n,
            v@ == s@.take(i as int),
        decreases n - i,
    {
        v.push(s.get_char(i));
        i += 1;
        assert(v@ =~= s@.take(i as int));
    }
    assert(v@ =~= s@);
    v
}

/// The characters `cs[lo..hi]` as a `String`.
pub fn string_of(cs: &[char], lo: usize, hi: usize) -> (res: String)
    requires
        lo <= hi <= cs@.len(),
    ensures
        res@ == cs@.subrange(lo as int, hi as int),
{
    let mut res = String::new();
    let mut i = lo;
    while i < hi
        invariant
            lo <= i <= hi <= cs@.len(),
            res@ == cs@.subrange(lo as int, i as int),
        decreases hi - i,
    {
        push_char(&mut res, cs[i]);
        i += 1;
        assert(res@ =~= cs@.subrange(lo as int, i as int));
    }
    res
}

/// A copy of `s`.
pub fn copy_str(s: &str) -> (res: String)
    ensures
        res@ == s@,
{
    String::from_str(s)
}

/// Appends `t` to `s`.
pub fn append_str(s: &mut String, t: &str)
    ensures
        final(s)@ == old(s)@ + t@,
{
    s.append(t);
}

/// `char::is_whitespace`.
pub fn is_whitespace(c: char) -> (res: bool)
    ensures
        res == is_ws(c),
{
    let u = c as u32;
    (0x9 <= u && u <= 0xd) || u == 0x20 || u == 0x85 || u == 0xa0 || u == 0x1680 || (0x2000 <= u
        && u <= 0x200a) || u == 0x2028 || u == 0x2029 || u == 0x202f || u == 0x205f || u == 0x3000
}

/// `str::trim`: `s` without whitespace at either end.
pub fn trim_str(s: &str) -> (res: String)
    ensures
        res@ == trim(s@),
{
    let cs = chars_of(s);
    let n = cs.len();
    let mut lo: usize = 0;
    while lo < n && is_whitespace(cs[lo])
        invariant
            n == cs@.len(),
            cs@ == s@,
            lo <= n,
            forall|i: int| 0 <= i < lo ==> is_ws(#[trigger] cs@[i]),
        decreases n - lo,
    {
        lo += 1;
    }
    proof {
        lemma_trim_start_skip(cs@, lo as int);
        if lo < n {
            assert(trim_start(cs@.skip(lo as int)) == cs@.skip(lo as int));
        } else {
            assert(cs@.skip(lo as int) =~= Seq::<char>::empty());
        }
    }
    let ghost t = cs@.skip(lo as int);
    let mut hi: usize = n;
    while hi > lo && is_whitespace(cs[hi - 1])
        invariant
            n == cs@.len(),
            lo <= hi <= n,
            t == cs@.skip(lo as int),
            forall|i: int| hi <= i < n ==> is_ws(#[trigger] cs@[i]),
        decreases hi,
    {
        hi -= 1;
    }
    proof {
        let k = hi - lo;
        assert forall|i: int| k <= i < t.len() implies is_ws(#[trigger] t[i]) by {
            assert(t[i] == cs@[i + lo]);
        }
        lemma_trim_end_take(t, k as int);
        let u = t.take(k as int);
        if k > 0 {
            assert(u.last() == cs@[hi - 1]);
        }
        assert(trim_end(u) == u);
        assert(u =~= cs@.subrange(lo as int, hi as int));
    }
    string_of(cs.as_slice(), lo, hi)
}

/// `str::trim_end_matches(c)`: `s` without any number of trailing `c`.
pub fn trim_end_char_str(s: &str, c: char) -> (res: String)
    ensures
        res@ == trim_end_char(s@, c),
{
    let cs = chars_of(s);
    let n = cs.len();
    let mut hi: usize = n;
    while hi > 0 && cs[hi - 1] == c
        invariant
            n == cs@.len(),
            cs@ == s@,
            hi <= n,
            forall|i: int| hi <= i < n ==> #[trigger] cs@[i] == c,
        decreases hi,
    {
        hi -= 1;
    }
    proof {
        lemma_trim_end_char_take(cs@, c, hi as int);
        let u = cs@.take(hi as int);
        if hi > 0 {
            assert(u.last() == cs@[hi - 1]);
        }
        assert(trim_end_char(u, c) == u);
        assert(u =~= cs@.subrange(0, hi as int));
    }
    string_of(cs.as_slice(), 0, hi)
}

/// Whether `cs[at..]` begins with `p`.
pub fn chars_start_with_at(cs: &[char], at: usize, p: &[char]) -> (res: bool)
    requires
        at <= cs@.len(),
    ensures
        res == starts_with(cs@.skip(at as int), p@),
{
    let n = cs.len();
    let m = p.len();
    if m > n - at {
        return false;
    }
    let mut i: usize = 0;
    while i < m
        invariant
            n == cs@.len(),
            m == p@.len(),
            at + m <= n,
            i <= m,
            forall|j: int| 0 <= j < i ==> cs@[at + j] == p@[j],
        decreases m - i,
    {
        if cs[at + i] != p[i] {
            assert(cs@.skip(at as int).take(m as int)[i as int] != p@[i as int]);
            return false;
        }
        i += 1;
    }
    assert(cs@.skip(at as int).take(m as int) =~= p@);
    true
}

/// `str::starts_with`.
pub fn starts_with_str(s: &str, p: &str) -> (res: bool)
    ensures
        res == starts_with(s@, p@),
{
    let cs = chars_of(s);
    let ps = chars_of(p);
    assert(cs@.skip(0) =~= cs@);
    chars_start_with_at(cs.as_slice(), 0, ps.as_slice())
}

/// `str::ends_with`.
pub fn ends_with_str(s: &str, p: &str) -> (res: bool)
    ensures
        res == ends_with(s@, p@),
{
    let cs = chars_of(s);
    let ps = chars_of(p);
    if ps.len() > cs.len() {
        return false;
    }
    let at = cs.len() - ps.len();
    assert(cs@.skip(at as int).take(ps@.len() as int) =~= cs@.skip(at as int));
    chars_start_with_at(cs.as_slice(), at, ps.as_slice())
}

/// `==` on string slices.
pub fn str_eq(a: &str, b: &str) -> (res: bool)
    ensures
        res == (a@ == b@),
{
    let x = chars_of(a);
    let y = chars_of(b);
    if x.len() != y.len() {
        return false;
    }
    let r = starts_with_str(a, b);
    assert(x@.take(y@.len() as int) =~= x@);
    r
}

/// `str::strip_prefix`: the rest of `s` after `p`, when `s` begins with `p`.
pub fn strip_prefix_str(s: &str, p: &str) -> (res: Option<String>)
    ensures
        starts_with(s@, p@) ==> (res matches Some(r) && r@ == s@.skip(p@.len() as int)),
        !starts_with(s@, p@) ==> res is None,
{
    if starts_with_str(s, p) {
        let cs = chars_of(s);
        let m = p.unicode_len();
        let r = string_of(cs.as_slice(), m, cs.len());
        assert(cs@.subrange(m as int, cs@.len() as int) =~= s@.skip(p@.len() as int));
        Some(r)
    } else {
        None
    }
}

/// `str::trim_start_matches(p)`: `s` without any number of leading copies of
/// `p` (an empty pattern removes nothing).
pub fn trim_start_seq_str(s: &str, p: &str) -> (res: String)
    ensures
        res@ == trim_start_seq(s@, p@),
{
    let cs = chars_of(s);
    let ps = chars_of(p);
    let n = cs.len();
    let m = ps.len();
    if m == 0 {
        return copy_str(s);
    }
    let mut at: usize = 0;
    assert(cs@.skip(0) =~= cs@);
    while chars_start_with_at(cs.as_slice(), at, ps.as_slice())
        invariant
            n == cs@.len(),
            m == ps@.len(),
            m > 0,
            at <= n,
            trim_start_seq(cs@, ps@) == trim_start_seq(cs@.skip(at as int), ps@),
        decreases n - at,
    {
        assert(cs@.skip(at as int).skip(m as int) =~= cs@.skip(at + m));
        at = at + m;
    }
    assert(cs@.skip(at as int) =~= cs@.subrange(at as int, n as int));
    string_of(cs.as_slice(), at, n)
}

/// `char::to_ascii_lowercase`.
pub fn lower_ascii_char(c: char) -> (res: char)
    ensures
        res == ascii_lower(c),
{
    if 'A' <= c && c <= 'Z' {
        let u = (c as u8) + 32;
        u as char
    } else {
        c
    }
}

/// `str::to_ascii_lowercase`.
pub fn lower_ascii_str(s: &str) -> (res: String)
    ensures
        res@ == ascii_lower_seq(s@),
{
    let cs = chars_of(s);
    let n = cs.len();
    let mut res = String::new();
    let mut i: usize = 0;
    while i < n
        invariant
            n == cs@.len(),
            cs@ == s@,
            i <= n,
            res@ == ascii_lower_seq(s@).take(i as int),
        decreases n - i,
    {
        push_char(&mut res, lower_ascii_char(cs[i]));
        i += 1;
        assert(res@ =~= ascii_lower_seq(s@).take(i as int));
    }
    assert(res@ =~= ascii_lower_seq(s@));
    res
}

/// `str::eq_ignore_ascii_case`.
pub fn eq_ignore_ascii_case_str(a: &str, b: &str) -> (res: bool)
    ensures
        res == eq_ignore_ascii_case(a@, b@),
{
    let x = lower_ascii_str(a);
    let y = lower_ascii_str(b);
    str_eq(x.as_str(), y.as_str())
}

/// The decimal digit of `d < 10`.
fn digit_of(d: u64) -> (c: char)
    requires
        d < 10,
    ensures
        c == digit_char(d as int),
{
    ((d as u8) + 48) as char
}

/// The lowercase hexadecimal digit of `d < 16`.
fn hex_digit_of(d: u64) -> (c: char)
    requires
        d < 16,
    ensures
        c == hex_char(d as int),
{
    if d < 10 {
        ((d as u8) + 48) as char
    } else {
        ((d as u8) + 87) as char
    }
}

/// The decimal digits of `n`.
pub fn decimal_u64(n: u64) -> (res: String)
    ensures
        res@ == decimal_digits(n as nat),
    decreases n,
{
    if n < 10 {
        let mut s = String::new();
        push_char(&mut s, digit_of(n));
        assert(s@ =~= seq![digit_char(n as int)]);
        s
    } else {
        let mut s = decimal_u64(n / 10);
        push_char(&mut s, digit_of(n % 10));
        s
    }
}

/// How `{}` formats an `i64`.
pub fn decimal_i64(n: i64) -> (res: String)
    ensures
        res@ == decimal(n as int),
{
    if n < 0 {
        let m: u64 = if n == i64::MIN {
            9223372036854775808u64
        } else {
            (-n) as u64
        };
        let digits = decimal_u64(m);
        let mut s = String::new();
        push_char(&mut s, '-');
        s.append(digits.as_str());
        assert(s@ =~= seq!['-'] + decimal_digits((-n) as nat));
        s
    } else {
        decimal_u64(n as u64)
    }
}

/// The lowest `width` hexadecimal digits of `n` (what `{:0width$x}` gives
/// when `n` has at most `width` digits).
pub fn hex_fixed_u64(n: u64, width: usize) -> (res: String)
    ensures
        res@ == hex_fixed(n as nat, width as nat),
    decreases width,
{
    if width == 0 {
        String::new()
    } else {
        let mut s = hex_fixed_u64(n / 16, width - 1);
        push_char(&mut s, hex_digit_of(n % 16));
        s
    }
}

/// Two lowercase hexadecimal digits per byte.
pub fn hex_lower_bytes(bytes: &[u8]) -> (res: String)
    ensures
        res@ == hex_lower(bytes@),
{
    let n = bytes.len();
    let mut res = String::new();
    let mut i: usize = 0;
    while i < n
        invariant
            n == bytes@.len(),
            i <= n,
            res@ == hex_lower(bytes@.take(i as int)),
        decreases n - i,
    {
        let pair = hex_fixed_u64(bytes[i] as u64, 2);
        res.append(pair.as_str());
        proof {
            let t = bytes@.take(i + 1);
            assert(t.drop_last() =~= bytes@.take(i as int));
            assert(t.last() == bytes@[i as int]);
        }
        i += 1;
    }
    assert(bytes@.take(n as int) =~= bytes@);
    res
}

} // verus!
