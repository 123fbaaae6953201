//! The timestamp naming scheme for auto-generated workspace directories and
//! the retention rule applied to them.
//!
//! A generated workspace is named by its creation instant, written as
//! `YYYYMMDD-HHMMSS-NNNNNNNNN`: four-digit year, two-digit month, day, hour,
//! minute and second, and nine digits of nanoseconds, 25 characters in all.
//! On a later run, any sibling directory whose name parses under this scheme
//! and whose age relative to "now" is strictly greater than seven weeks is
//! removed; younger ones, and names that do not parse, are kept.

use vstd::prelude::*;

use crate::status::digit_char;
use crate::status::digit_str;

verus! {

/// A calendar instant, held as plain field values.
#[derive(Clone, Copy, Debug, PartialEq, Eq, Structural)]
pub struct Timestamp {
    pub year: u32,
    pub month: u32,
    pub day: u32,
    pub hour: u32,
    pub minute: u32,
    pub second: u32,
    pub nanos: u32,
}

/// Whether a year is a leap year in the Gregorian calendar.
pub open spec fn is_leap_year(y: nat) -> bool {
    y % 4 == 0 && (y % 100 != 0 || y % 400 == 0)
}

/// How many days the given month of the given year has.
pub open spec fn days_in_month(y: nat, m: nat) -> nat {
    if m == 2 {
        if is_leap_year(y) {
            29
        } else {
            28
        }
    } else if m == 4 || m == 6 || m == 9 || m == 11 {
        30
    } else {
        31
    }
}

impl Timestamp {
    /// A well-formed instant: a real calendar date with in-range time fields.
    pub open spec fn wf(self) -> bool {
        &&& self.year <= 9999
        &&& 1 <= self.month <= 12
        &&& 1 <= self.day <= days_in_month(self.year as nat, self.month as nat)
        &&& self.hour < 24
        &&& self.minute < 60
        &&& self.second < 60
        &&& self.nanos < 1_000_000_000
    }
}

/// The day number of a calendar date, counted from a fixed epoch placed
/// before every representable date, so that the count is never negative.
pub open spec fn day_number(y: nat, m: nat, d: nat) -> int {
    let yy: nat = if m <= 2 {
        (y + 399) as nat
    } else {
        (y + 400) as nat
    };
    let era = yy / 400;
    let yoe = yy % 400;
    let mp: nat = if m > 2 {
        (m - 3) as nat
    } else {
        (m + 9) as nat
    };
    let doy = (153 * mp + 2) / 5 + d - 1;
    let doe = yoe * 365 + yoe / 4 - yoe / 100 + doy;
    era * 146097 + doe
}

/// An instant on a single timeline, in nanoseconds from the day-number epoch.
pub open spec fn timeline_nanos(t: Timestamp) -> int {
    (day_number(t.year as nat, t.month as nat, t.day as nat) * 86400 + t.hour * 3600
        + t.minute * 60 + t.second) * 1_000_000_000 + t.nanos
}

/// The retention limit: seven weeks, in nanoseconds.
pub open spec fn retention_nanos() -> int {
    (7 * 7 * 86400 * 1_000_000_000) as int
}

/// A workspace made at `t` is stale at `now` exactly when its age is
/// strictly greater than seven weeks.
pub open spec fn is_stale(t: Timestamp, now: Timestamp) -> bool {
    timeline_nanos(now) - timeline_nanos(t) > retention_nanos()
}

/// Exponentiation of ten, for digit-count bounds.
pub open spec fn pow10(n: nat) -> nat
    decreases n,
{
    if n == 0 {
        1
    } else {
        10 * pow10((n - 1) as nat)
    }
}

/// Whether a character is a decimal digit.
pub open spec fn is_digit(c: char) -> bool {
    48 <= c as int && c as int <= 57
}

/// The numeric value of a digit character.
pub open spec fn digit_val(c: char) -> nat {
    (c as int - 48) as nat
}

/// Whether every character in the window is a decimal digit.
pub open spec fn digits_at(s: Seq<char>, start: int, len: int) -> bool {
    forall|i: int| start <= i < start + len ==> is_digit(#[trigger] s[i])
}

/// The number written by the digit window, most significant digit first.
pub open spec fn num_at(s: Seq<char>, start: int, len: int) -> nat
    decreases len,
{
    if len <= 0 {
        0
    } else {
        num_at(s, start, len - 1) * 10 + digit_val(s[start + len - 1])
    }
}

/// Ten to a smaller power is no larger.
proof fn lemma_pow10_mono(a: nat, b: nat)
    requires
        a <= b,
    ensures
        pow10(a) <= pow10(b),
    decreases b,
{
    if a < b {
        lemma_pow10_mono(a, (b - 1) as nat);
    }
}

/// A digit window of width `len` writes a number below ten to the `len`.
proof fn lemma_num_at_bound(s: Seq<char>, start: int, len: int)
    requires
        0 <= len,
        digits_at(s, start, len),
    ensures
        num_at(s, start, len) < pow10(len as nat),
    decreases len,
{
    if len > 0 {
        assert(digits_at(s, start, len - 1));
        lemma_num_at_bound(s, start, len - 1);
        assert(is_digit(s[start + len - 1]));
    }
}

/// The shape of a workspace name: 25 characters, digit fields separated by
/// hyphens at positions 8 and 15.
pub open spec fn name_shape(s: Seq<char>) -> bool {
    &&& s.len() == 25
    &&& s[8] == '-'
    &&& s[15] == '-'
    &&& digits_at(s, 0, 8)
    &&& digits_at(s, 9, 6)
    &&& digits_at(s, 16, 9)
}

/// The instant written by a name of the right shape.
pub open spec fn parsed_name(s: Seq<char>) -> Timestamp {
    Timestamp {
        year: num_at(s, 0, 4) as u32,
        month: num_at(s, 4, 2) as u32,
        day: num_at(s, 6, 2) as u32,
        hour: num_at(s, 9, 2) as u32,
        minute: num_at(s, 11, 2) as u32,
        second: num_at(s, 13, 2) as u32,
        nanos: num_at(s, 16, 9) as u32,
    }
}

/// A name parses when it has the right shape and writes a real calendar
/// instant.
pub open spec fn name_parses(s: Seq<char>) -> bool {
    name_shape(s) && parsed_name(s).wf()
}

/// Read the digit window `[start, start + len)` of `s` as a number.
fn read_num(s: &str, start: usize, len: usize) -> (r: Option<u32>)
    requires
        start + len <= s@.len(),
        start + len <= 25,
        len <= 9,
    ensures
        r matches Option::Some(v) ==> digits_at(s@, start as int, len as int) && v as nat
            == num_at(s@, start as int, len as int),
        r is None ==> !digits_at(s@, start as int, len as int),
{
    let mut v: u32 = 0;
    let mut i: usize = 0;
    while i < len
        invariant
            start + len <= s@.len(),
            start + len <= 25,
            len <= 9,
            i <= len,
            digits_at(s@, start as int, i as int),
            v as nat == num_at(s@, start as int, i as int),
        decreases len - i,
    {
        let c = s.get_char(start + i);
        let cv = c as u32;
        if cv < 48 || 57 < cv {
            assert(!is_digit(s@[start + i]));
            return Option::None;
        }
        proof {
            lemma_num_at_bound(s@, start as int, i as int);
            lemma_pow10_mono(i as nat, 8);
            assert(pow10(8) == 100_000_000) by {
                reveal_with_fuel(pow10, 9);
            }
        }
        v = v * 10 + (cv - 48);
        i = i + 1;
    }
    Option::Some(v)
}

/// How many days the given month of the given year has.
pub fn month_length(y: u32, m: u32) -> (r: u32)
    requires
        1 <= m <= 12,
    ensures
        r as nat == days_in_month(y as nat, m as nat),
{
    if m == 2 {
        if y % 4 == 0 && (y % 100 != 0 || y % 400 == 0) {
            29
        } else {
            28
        }
    } else if m == 4 || m == 6 || m == 9 || m == 11 {
        30
    } else {
        31
    }
}

/// Parse a directory name under the workspace naming scheme. Returns the
/// instant it writes, or nothing when the name does not follow the scheme or
/// writes no real calendar instant.
pub fn parse_name(s: &str) -> (r: Option<Timestamp>)
    ensures
        r == if name_parses(s@) {
            Option::Some(parsed_name(s@))
        } else {
            Option::<Timestamp>::None
        },
{
    let n = s.unicode_len();
    if n != 25 {
        return Option::None;
    }
    if s.get_char(8) as u32 != 45 || s.get_char(15) as u32 != 45 {
        assert(!(s@[8] == '-' && s@[15] == '-'));
        return Option::None;
    }
    assert(s@[8] == '-' && s@[15] == '-');
    let year = match read_num(s, 0, 4) {
        Option::Some(v) => v,
        Option::None => {
            return Option::None;
        },
    };
    let month = match read_num(s, 4, 2) {
        Option::Some(v) => v,
        Option::None => {
            return Option::None;
        },
    };
    let day = match read_num(s, 6, 2) {
        Option::Some(v) => v,
        Option::None => {
            return Option::None;
        },
    };
    let hour = match read_num(s, 9, 2) {
        Option::Some(v) => v,
        Option::None => {
            return Option::None;
        },
    };
    let minute = match read_num(s, 11, 2) {
        Option::Some(v) => v,
        Option::None => {
            return Option::None;
        },
    };
    let second = match read_num(s, 13, 2) {
        Option::Some(v) => v,
        Option::None => {
            return Option::None;
        },
    };
    let nanos = match read_num(s, 16, 9) {
        Option::Some(v) => v,
        Option::None => {
            return Option::None;
        },
    };
    let t = Timestamp { year, month, day, hour, minute, second, nanos };
    assert(name_shape(s@)) by {
        assert(digits_at(s@, 0, 8)) by {
            assert(forall|i: int| 0 <= i < 4 ==> is_digit(#[trigger] s@[i]));
            assert(forall|i: int| 4 <= i < 6 ==> is_digit(#[trigger] s@[i]));
            assert(forall|i: int| 6 <= i < 8 ==> is_digit(#[trigger] s@[i]));
        }
        assert(digits_at(s@, 9, 6)) by {
            assert(forall|i: int| 9 <= i < 11 ==> is_digit(#[trigger] s@[i]));
            assert(forall|i: int| 11 <= i < 13 ==> is_digit(#[trigger] s@[i]));
            assert(forall|i: int| 13 <= i < 15 ==> is_digit(#[trigger] s@[i]));
        }
    }
    assert(t == parsed_name(s@));
    if month < 1 || 12 < month {
        return Option::None;
    }
    if day < 1 || month_length(year, month) < day {
        return Option::None;
    }
    if 23 < hour || 59 < minute || 59 < second {
        return Option::None;
    }
    proof {
        lemma_num_at_bound(s@, 0, 4);
        lemma_num_at_bound(s@, 16, 9);
        assert(pow10(4) == 10000 && pow10(9) == 1_000_000_000) by {
            reveal_with_fuel(pow10, 10);
        }
    }
    assert(t.wf());
    Option::Some(t)
}

/// The day number of a well-formed calendar date, as a machine integer.
fn day_number_of(y: u32, m: u32, d: u32) -> (r: u64)
    requires
        y <= 9999,
        1 <= m <= 12,
        1 <= d <= 31,
    ensures
        r as int == day_number(y as nat, m as nat, d as nat),
{
    let yy: u64 = if m <= 2 {
        y as u64 + 399
    } else {
        y as u64 + 400
    };
    let era: u64 = yy / 400;
    let yoe: u64 = yy % 400;
    let mp: u64 = if m > 2 {
        m as u64 - 3
    } else {
        m as u64 + 9
    };
    let doy: u64 = (153 * mp + 2) / 5 + d as u64 - 1;
    let doe: u64 = yoe * 365 + yoe / 4 - yoe / 100 + doy;
    era * 146097 + doe
}

/// An instant's position on the timeline, in nanoseconds.
fn timeline_value(t: &Timestamp) -> (r: u128)
    requires
        t.wf(),
    ensures
        r as int == timeline_nanos(*t),
{
    let days = day_number_of(t.year, t.month, t.day);
    let secs: u64 = days * 86400 + t.hour as u64 * 3600 + t.minute as u64 * 60 + t.second as u64;
    secs as u128 * 1_000_000_000 + t.nanos as u128
}

/// Whether the instant `t` lies strictly more than seven weeks before `now`.
pub fn stale_at(t: &Timestamp, now: &Timestamp) -> (r: bool)
    requires
        t.wf(),
        now.wf(),
    ensures
        r == is_stale(*t, *now),
{
    let a = timeline_value(t);
    let b = timeline_value(now);
    assert(retention_nanos() == 4_233_600_000_000_000);
    b > a + 4_233_600_000_000_000
}

/// A number written in decimal, zero-padded to exactly `w` digits; only the
/// `w` lowest decimal digits are kept.
pub open spec fn dec_pad(n: nat, w: nat) -> Seq<char>
    decreases w,
{
    if w == 0 {
        Seq::empty()
    } else {
        dec_pad(n / 10, (w - 1) as nat).push(digit_char(n % 10))
    }
}

/// Render a number zero-padded to exactly `w` digits.
fn render_pad(n: u32, w: usize) -> (r: String)
    requires
        w <= 9,
    ensures
        r@ == dec_pad(n as nat, w as nat),
        r@.len() == w,
    decreases w,
{
    if w == 0 {
        let s = String::new();
        assert(s@ =~= dec_pad(n as nat, 0));
        s
    } else {
        let mut s = render_pad(n / 10, w - 1);
        s.append(digit_str((n % 10) as u8));
        assert(s@ =~= dec_pad(n as nat, w as nat));
        s
    }
}

/// The workspace name that writes an instant: `YYYYMMDD-HHMMSS-NNNNNNNNN`.
pub open spec fn name_text(t: Timestamp) -> Seq<char> {
    dec_pad(t.year as nat, 4) + dec_pad(t.month as nat, 2) + dec_pad(t.day as nat, 2) + "-"@
        + dec_pad(t.hour as nat, 2) + dec_pad(t.minute as nat, 2) + dec_pad(t.second as nat, 2)
        + "-"@ + dec_pad(t.nanos as nat, 9)
}

/// Render an instant as a workspace directory name under the naming scheme.
pub fn format_name(t: &Timestamp) -> (r: String)
    requires
        t.wf(),
    ensures
        r@ == name_text(*t),
{
    proof {
        reveal_strlit("-");
    }
    let mut s = render_pad(t.year, 4);
    let part = render_pad(t.month, 2);
    s.append(part.as_str());
    let part = render_pad(t.day, 2);
    s.append(part.as_str());
    s.append("-");
    let part = render_pad(t.hour, 2);
    s.append(part.as_str());
    let part = render_pad(t.minute, 2);
    s.append(part.as_str());
    let part = render_pad(t.second, 2);
    s.append(part.as_str());
    s.append("-");
    let part = render_pad(t.nanos, 9);
    s.append(part.as_str());
    assert(s@ =~= name_text(*t));
    s
}

/// A zero-padded rendering has exactly `w` characters.
proof fn lemma_dec_pad_len(n: nat, w: nat)
    ensures
        dec_pad(n, w).len() == w,
    decreases w,
{
    if w > 0 {
        lemma_dec_pad_len(n / 10, (w - 1) as nat);
    }
}

/// A digit's character is a digit character and reads back as the digit.
proof fn lemma_digit_char_val(d: nat)
    requires
        d < 10,
    ensures
        is_digit(digit_char(d)),
        digit_val(digit_char(d)) == d,
{
}

/// Reading a zero-padded rendering embedded in a larger text gives back the
/// number, provided the number fits the width.
proof fn lemma_read_back(s: Seq<char>, start: int, n: nat, w: nat)
    requires
        n < pow10(w),
        0 <= start,
        start + w <= s.len(),
        forall|j: int| 0 <= j < w ==> s[start + j] == dec_pad(n, w)[j],
    ensures
        digits_at(s, start, w as int),
        num_at(s, start, w as int) == n,
    decreases w,
{
    lemma_dec_pad_len(n, w);
    if w == 0 {
    } else {
        let w1 = (w - 1) as nat;
        lemma_dec_pad_len(n / 10, w1);
        assert forall|j: int| 0 <= j < w1 implies #[trigger] s[start + j] == dec_pad(n / 10, w1)[
            j
        ] by {
            assert(s[start + j] == dec_pad(n, w)[j]);
            assert(dec_pad(n, w)[j] == dec_pad(n / 10, w1)[j]);
        }
        assert(n / 10 < pow10(w1)) by (nonlinear_arith)
            requires
                n < pow10(w),
                pow10(w) == 10 * pow10(w1),
        ;
        lemma_read_back(s, start, n / 10, w1);
        lemma_digit_char_val(n % 10);
        assert(s[start + w - 1] == dec_pad(n, w)[w as int - 1]);
        assert(dec_pad(n, w)[w as int - 1] == digit_char(n % 10));
        assert forall|i: int| start <= i < start + w implies is_digit(#[trigger] s[i]) by {
            if i < start + w - 1 {
                assert(is_digit(s[i]));
            }
        }
        assert(num_at(s, start, w as int) == num_at(s, start, w as int - 1) * 10 + digit_val(
            s[start + w - 1],
        ));
    }
}

/// Law (round trip): a workspace name generated for a well-formed instant
/// always parses under the naming scheme, and parses back to that instant.
pub proof fn lemma_name_round_trip(t: Timestamp)
    requires
        t.wf(),
    ensures
        name_parses(name_text(t)),
        parsed_name(name_text(t)) == t,
{
    reveal_strlit("-");
    let s = name_text(t);
    lemma_dec_pad_len(t.year as nat, 4);
    lemma_dec_pad_len(t.month as nat, 2);
    lemma_dec_pad_len(t.day as nat, 2);
    lemma_dec_pad_len(t.hour as nat, 2);
    lemma_dec_pad_len(t.minute as nat, 2);
    lemma_dec_pad_len(t.second as nat, 2);
    lemma_dec_pad_len(t.nanos as nat, 9);
    assert(s.len() == 25);
    assert(pow10(2) == 100 && pow10(4) == 10000 && pow10(9) == 1_000_000_000) by {
        reveal_with_fuel(pow10, 10);
    }
    assert(s[8] == '-');
    assert(s[15] == '-');
    assert(forall|j: int| 0 <= j < 4 ==> s[0 + j] == dec_pad(t.year as nat, 4)[j]);
    lemma_read_back(s, 0, t.year as nat, 4);
    assert(forall|j: int| 0 <= j < 2 ==> s[4 + j] == dec_pad(t.month as nat, 2)[j]);
    lemma_read_back(s, 4, t.month as nat, 2);
    assert(forall|j: int| 0 <= j < 2 ==> s[6 + j] == dec_pad(t.day as nat, 2)[j]);
    lemma_read_back(s, 6, t.day as nat, 2);
    assert(forall|j: int| 0 <= j < 2 ==> s[9 + j] == dec_pad(t.hour as nat, 2)[j]);
    lemma_read_back(s, 9, t.hour as nat, 2);
    assert(forall|j: int| 0 <= j < 2 ==> s[11 + j] == dec_pad(t.minute as nat, 2)[j]);
    lemma_read_back(s, 11, t.minute as nat, 2);
    assert(forall|j: int| 0 <= j < 2 ==> s[13 + j] == dec_pad(t.second as nat, 2)[j]);
    lemma_read_back(s, 13, t.second as nat, 2);
    assert(forall|j: int| 0 <= j < 9 ==> s[16 + j] == dec_pad(t.nanos as nat, 9)[j]);
    lemma_read_back(s, 16, t.nanos as nat, 9);
    assert(name_shape(s));
    assert(parsed_name(s) == t);
}

/// The retention decision for one directory name: remove it exactly when it
/// parses under the naming scheme and its age at `now` is strictly greater
/// than seven weeks.
pub fn should_remove(name: &str, now: &Timestamp) -> (r: bool)
    requires
        now.wf(),
    ensures
        r == (name_parses(name@) && is_stale(parsed_name(name@), *now)),
{
    match parse_name(name) {
        Option::Some(t) => stale_at(&t, now),
        Option::None => false,
    }
}

} // verus!
