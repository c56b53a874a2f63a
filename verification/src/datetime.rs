//! Calendar date-time model and the upstream service's date and time text
//! conventions: the primary `YYYY-MM-DDTHH:MM:SS.mmmZ` timestamp, the basic
//! `YYYY-MM-DDTHH:MM:SS` timestamp, the `HH:MM:SS`-or-blank service time,
//! and the `YYYY-MM-DD HH:MM` outbound format. All values are plain
//! year/month/day/hour/minute/second/millisecond fields; no time-zone
//! arithmetic is performed, values are carried as the upstream sends them.

use vstd::prelude::*;

use crate::error::DecodeError;
use crate::num::digit_char;
use crate::num::is_digit_exec;
use crate::text::{digit_val, is_digit};

verus! {

/// A calendar timestamp with millisecond precision.
#[derive(Debug, Clone, Copy, PartialEq, Eq, Structural)]
pub struct DateTime {
    pub year: u32,
    pub month: u32,
    pub day: u32,
    pub hour: u32,
    pub minute: u32,
    pub second: u32,
    pub milli: u32,
}

/// A time of day.
#[derive(Debug, Clone, Copy, PartialEq, Eq, Structural)]
pub struct Time {
    pub hour: u32,
    pub minute: u32,
    pub second: u32,
}

/// Gregorian leap-year rule.
pub open spec fn is_leap_year(y: int) -> bool {
    y % 4 == 0 && (y % 100 != 0 || y % 400 == 0)
}

/// Number of days of month `m` of year `y`.
pub open spec fn days_in_month(y: int, m: int) -> int
    recommends
        1 <= m <= 12,
{
    if m == 2 {
        if is_leap_year(y) {
            29
        } else {
            28
        }
    } else if m == 4 || m == 6 || m == 9 || m == 11 {
        30
    } else {
        31
    }
}

/// A real calendar date with a four-digit year.
pub open spec fn valid_date(y: int, m: int, d: int) -> bool {
    0 <= y <= 9999 && 1 <= m <= 12 && 1 <= d <= days_in_month(y, m)
}

/// A valid time of day.
pub open spec fn valid_hms(h: int, mi: int, s: int) -> bool {
    0 <= h < 24 && 0 <= mi < 60 && 0 <= s < 60
}

impl DateTime {
    /// The fields form a real calendar timestamp.
    pub open spec fn wf(&self) -> bool {
        valid_date(self.year as int, self.month as int, self.day as int) && valid_hms(
            self.hour as int,
            self.minute as int,
            self.second as int,
        ) && self.milli < 1000
    }

    /// Decide at run time whether the fields form a real calendar
    /// timestamp.
    pub fn is_wf(&self) -> (r: bool)
        ensures
            r == self.wf(),
    {
        0 < self.month && self.month <= 12 && self.year <= 9999 && 0 < self.day && self.day
            <= days_in_month_exec(self.year, self.month) && self.hour < 24 && self.minute < 60
            && self.second < 60 && self.milli < 1000
    }
}

impl Time {
    /// The fields form a valid time of day.
    pub open spec fn wf(&self) -> bool {
        valid_hms(self.hour as int, self.minute as int, self.second as int)
    }
}

/// The value of the two-digit run at position `i`, if both characters
/// are digits.
pub open spec fn two_digits(s: Seq<char>, i: int) -> Option<int>
    recommends
        0 <= i && i + 2 <= s.len(),
{
    if is_digit(s[i]) && is_digit(s[i + 1]) {
        Some(10 * digit_val(s[i]) + digit_val(s[i + 1]))
    } else {
        None
    }
}

/// The value of the four-digit run at position `i`, if all four
/// characters are digits.
pub open spec fn four_digits(s: Seq<char>, i: int) -> Option<int>
    recommends
        0 <= i && i + 4 <= s.len(),
{
    if is_digit(s[i]) && is_digit(s[i + 1]) && is_digit(s[i + 2]) && is_digit(s[i + 3]) {
        Some(
            1000 * digit_val(s[i]) + 100 * digit_val(s[i + 1]) + 10 * digit_val(s[i + 2])
                + digit_val(s[i + 3]),
        )
    } else {
        None
    }
}

/// The value of the three-digit run at position `i`, if all three
/// characters are digits.
pub open spec fn three_digits(s: Seq<char>, i: int) -> Option<int>
    recommends
        0 <= i && i + 3 <= s.len(),
{
    if is_digit(s[i]) && is_digit(s[i + 1]) && is_digit(s[i + 2]) {
        Some(100 * digit_val(s[i]) + 10 * digit_val(s[i + 1]) + digit_val(s[i + 2]))
    } else {
        None
    }
}

/// Shape of the leading `YYYY-MM-DDTHH:MM:SS` prefix: separators in place
/// and every component a digit run.
pub open spec fn date_prefix_shape(s: Seq<char>) -> bool
    recommends
        s.len() >= 19,
{
    four_digits(s, 0) is Some && s[4] == '-' && two_digits(s, 5) is Some && s[7] == '-'
        && two_digits(s, 8) is Some && s[10] == 'T' && two_digits(s, 11) is Some && s[13] == ':'
        && two_digits(s, 14) is Some && s[16] == ':' && two_digits(s, 17) is Some
}

/// The timestamp denoted by a `YYYY-MM-DDTHH:MM:SS` prefix whose shape
/// matched, with the given milliseconds, if its fields form a real
/// calendar timestamp.
pub open spec fn date_prefix_value(s: Seq<char>, milli: int) -> Option<DateTime>
    recommends
        s.len() >= 19 && date_prefix_shape(s),
{
    let y = four_digits(s, 0)->0;
    let mo = two_digits(s, 5)->0;
    let d = two_digits(s, 8)->0;
    let h = two_digits(s, 11)->0;
    let mi = two_digits(s, 14)->0;
    let se = two_digits(s, 17)->0;
    if valid_date(y, mo, d) && valid_hms(h, mi, se) {
        Some(
            DateTime {
                year: y as u32,
                month: mo as u32,
                day: d as u32,
                hour: h as u32,
                minute: mi as u32,
                second: se as u32,
                milli: milli as u32,
            },
        )
    } else {
        None
    }
}

/// The timestamp denoted by `s` under the basic ISO convention
/// `YYYY-MM-DDTHH:MM:SS`: no fractional seconds, no zone suffix.
pub open spec fn iso_basic_of(s: Seq<char>) -> Option<DateTime> {
    if s.len() == 19 && date_prefix_shape(s) {
        date_prefix_value(s, 0)
    } else {
        None
    }
}

/// The timestamp denoted by `s` under the primary convention
/// `YYYY-MM-DDTHH:MM:SS.mmmZ`: exactly three fractional digits and a
/// literal `Z`; the value is taken as already UTC, no offset arithmetic.
pub open spec fn rfc3339_millis_of(s: Seq<char>) -> Option<DateTime> {
    if s.len() == 24 && date_prefix_shape(s) && s[19] == '.' && three_digits(s, 20) is Some
        && s[23] == 'Z' {
        date_prefix_value(s, three_digits(s, 20)->0)
    } else {
        None
    }
}

/// The time of day denoted by `s` under the `HH:MM:SS` convention.
pub open spec fn hms_of(s: Seq<char>) -> Option<Time> {
    if s.len() == 8 && two_digits(s, 0) is Some && s[2] == ':' && two_digits(s, 3) is Some && s[5]
        == ':' && two_digits(s, 6) is Some {
        let h = two_digits(s, 0)->0;
        let mi = two_digits(s, 3)->0;
        let se = two_digits(s, 6)->0;
        if valid_hms(h, mi, se) {
            Some(Time { hour: h as u32, minute: mi as u32, second: se as u32 })
        } else {
            None
        }
    } else {
        None
    }
}

/// Read the two-digit run at `i`, if both characters are digits.
fn read_two(s: &str, i: usize) -> (r: Option<u32>)
    requires
        i + 2 <= s@.len(),
        i + 2 <= usize::MAX,
    ensures
        match r {
            Some(v) => two_digits(s@, i as int) == Some(v as int) && v < 100,
            None => two_digits(s@, i as int) is None,
        },
{
    let c0 = s.get_char(i);
    let c1 = s.get_char(i + 1);
    if is_digit_exec(c0) && is_digit_exec(c1) {
        let v = 10 * (c0 as u32 - 48) + (c1 as u32 - 48);
        Some(v)
    } else {
        None
    }
}

/// Read the four-digit run at `i`, if all four characters are digits.
fn read_four(s: &str, i: usize) -> (r: Option<u32>)
    requires
        i + 4 <= s@.len(),
        i + 4 <= usize::MAX,
    ensures
        match r {
            Some(v) => four_digits(s@, i as int) == Some(v as int) && v < 10000,
            None => four_digits(s@, i as int) is None,
        },
{
    let c0 = s.get_char(i);
    let c1 = s.get_char(i + 1);
    let c2 = s.get_char(i + 2);
    let c3 = s.get_char(i + 3);
    if is_digit_exec(c0) && is_digit_exec(c1) && is_digit_exec(c2) && is_digit_exec(c3) {
        let v = 1000 * (c0 as u32 - 48) + 100 * (c1 as u32 - 48) + 10 * (c2 as u32 - 48) + (
        c3 as u32 - 48);
        Some(v)
    } else {
        None
    }
}

/// Read the three-digit run at `i`, if all three characters are digits.
fn read_three(s: &str, i: usize) -> (r: Option<u32>)
    requires
        i + 3 <= s@.len(),
        i + 3 <= usize::MAX,
    ensures
        match r {
            Some(v) => three_digits(s@, i as int) == Some(v as int) && v < 1000,
            None => three_digits(s@, i as int) is None,
        },
{
    let c0 = s.get_char(i);
    let c1 = s.get_char(i + 1);
    let c2 = s.get_char(i + 2);
    if is_digit_exec(c0) && is_digit_exec(c1) && is_digit_exec(c2) {
        let v = 100 * (c0 as u32 - 48) + 10 * (c1 as u32 - 48) + (c2 as u32 - 48);
        Some(v)
    } else {
        None
    }
}

/// Number of days of month `m` of year `y`, decided at run time.
fn days_in_month_exec(y: u32, m: u32) -> (r: u32)
    requires
        1 <= m <= 12,
    ensures
        r == days_in_month(y as int, m as int),
{
    if m == 2 {
        if y % 4 == 0 && (y % 100 != 0 || y % 400 == 0) {
            29
        } else {
            28
        }
    } else if m == 4 || m == 6 || m == 9 || m == 11 {
        30
    } else {
        31
    }
}

/// Read the `YYYY-MM-DDTHH:MM:SS` prefix and validate its calendar
/// fields, attaching the given milliseconds.
fn read_date_prefix(s: &str, milli: u32) -> (r: Option<DateTime>)
    requires
        s@.len() >= 19,
        milli < 1000,
    ensures
        match r {
            Some(v) => date_prefix_shape(s@) && date_prefix_value(s@, milli as int) == Some(v)
                && v.wf(),
            None => !date_prefix_shape(s@) || date_prefix_value(s@, milli as int) is None,
        },
{
    let y = match read_four(s, 0) {
        Some(v) => v,
        None => {
            return None;
        },
    };
    if s.get_char(4) != '-' {
        return None;
    }
    let mo = match read_two(s, 5) {
        Some(v) => v,
        None => {
            return None;
        },
    };
    if s.get_char(7) != '-' {
        return None;
    }
    let d = match read_two(s, 8) {
        Some(v) => v,
        None => {
            return None;
        },
    };
    if s.get_char(10) != 'T' {
        return None;
    }
    let h = match read_two(s, 11) {
        Some(v) => v,
        None => {
            return None;
        },
    };
    if s.get_char(13) != ':' {
        return None;
    }
    let mi = match read_two(s, 14) {
        Some(v) => v,
        None => {
            return None;
        },
    };
    if s.get_char(16) != ':' {
        return None;
    }
    let se = match read_two(s, 17) {
        Some(v) => v,
        None => {
            return None;
        },
    };
    if mo < 1 || mo > 12 || d < 1 || d > days_in_month_exec(y, mo) {
        return None;
    }
    if h >= 24 || mi >= 60 || se >= 60 {
        return None;
    }
    Some(DateTime { year: y, month: mo, day: d, hour: h, minute: mi, second: se, milli })
}

/// Basic ISO timestamp decoder: `YYYY-MM-DDTHH:MM:SS`, no fractional
/// seconds and no zone suffix. The error keeps the raw input.
pub fn date_iso_basic(s: &str) -> (r: Result<DateTime, DecodeError>)
    ensures
        match r {
            Ok(v) => iso_basic_of(s@) == Some(v) && v.wf(),
            Err(e) => iso_basic_of(s@) is None && e.input@ == s@,
        },
{
    if s.unicode_len() != 19 {
        return Err(DecodeError::new("a timestamp of the form YYYY-MM-DDTHH:MM:SS", s));
    }
    match read_date_prefix(s, 0) {
        Some(v) => Ok(v),
        None => Err(DecodeError::new("a timestamp of the form YYYY-MM-DDTHH:MM:SS", s)),
    }
}

/// Primary timestamp decoder: `YYYY-MM-DDTHH:MM:SS.mmmZ`, fixed
/// millisecond precision and a fixed `Z` suffix; the value is treated as
/// already UTC. The error keeps the raw input.
pub fn date_rfc3339_millis(s: &str) -> (r: Result<DateTime, DecodeError>)
    ensures
        match r {
            Ok(v) => rfc3339_millis_of(s@) == Some(v) && v.wf(),
            Err(e) => rfc3339_millis_of(s@) is None && e.input@ == s@,
        },
{
    if s.unicode_len() != 24 {
        return Err(DecodeError::new("a timestamp of the form YYYY-MM-DDTHH:MM:SS.mmmZ", s));
    }
    if s.get_char(19) != '.' || s.get_char(23) != 'Z' {
        return Err(DecodeError::new("a timestamp of the form YYYY-MM-DDTHH:MM:SS.mmmZ", s));
    }
    let milli = match read_three(s, 20) {
        Some(v) => v,
        None => {
            return Err(DecodeError::new("a timestamp of the form YYYY-MM-DDTHH:MM:SS.mmmZ", s));
        },
    };
    match read_date_prefix(s, milli) {
        Some(v) => Ok(v),
        None => Err(DecodeError::new("a timestamp of the form YYYY-MM-DDTHH:MM:SS.mmmZ", s)),
    }
}

/// Service-time decoder: the upstream uses an empty string, not a null,
/// to mean "no specific time", so the empty string decodes to no value;
/// anything else must be a valid `HH:MM:SS` time of day. The error keeps
/// the raw input.
pub fn time_hms_or_blank(s: &str) -> (r: Result<Option<Time>, DecodeError>)
    ensures
        match r {
            Ok(v) => (v matches Some(t) ==> hms_of(s@) == Some(t) && t.wf()) && (v is None
                ==> s@.len() == 0),
            Err(e) => s@.len() != 0 && hms_of(s@) is None && e.input@ == s@,
        },
{
    if s.unicode_len() == 0 {
        return Ok(None);
    }
    if s.unicode_len() != 8 {
        return Err(DecodeError::new("a time of the form HH:MM:SS", s));
    }
    if s.get_char(2) != ':' || s.get_char(5) != ':' {
        return Err(DecodeError::new("a time of the form HH:MM:SS", s));
    }
    let h = match read_two(s, 0) {
        Some(v) => v,
        None => {
            return Err(DecodeError::new("a time of the form HH:MM:SS", s));
        },
    };
    let mi = match read_two(s, 3) {
        Some(v) => v,
        None => {
            return Err(DecodeError::new("a time of the form HH:MM:SS", s));
        },
    };
    let se = match read_two(s, 6) {
        Some(v) => v,
        None => {
            return Err(DecodeError::new("a time of the form HH:MM:SS", s));
        },
    };
    if h >= 24 || mi >= 60 || se >= 60 {
        return Err(DecodeError::new("a time of the form HH:MM:SS", s));
    }
    Ok(Some(Time { hour: h, minute: mi, second: se }))
}

/// Two-digit zero-padded decimal text.
pub open spec fn pad2(n: int) -> Seq<char>
    recommends
        0 <= n < 100,
{
    seq![digit_char(n / 10), digit_char(n % 10)]
}

/// Four-digit zero-padded decimal text.
pub open spec fn pad4(n: int) -> Seq<char>
    recommends
        0 <= n < 10000,
{
    seq![digit_char(n / 1000), digit_char((n / 100) % 10), digit_char((n / 10) % 10), digit_char(
        n % 10,
    )]
}

/// The `YYYY-MM-DDTHH:MM:SS` text of a timestamp.
pub open spec fn iso_basic_str(dt: DateTime) -> Seq<char> {
    pad4(dt.year as int) + seq!['-'] + pad2(dt.month as int) + seq!['-'] + pad2(dt.day as int)
        + seq!['T'] + pad2(dt.hour as int) + seq![':'] + pad2(dt.minute as int) + seq![':'] + pad2(
        dt.second as int,
    )
}

/// The `YYYY-MM-DD HH:MM` text of a timestamp.
pub open spec fn touch_str(dt: DateTime) -> Seq<char> {
    pad4(dt.year as int) + seq!['-'] + pad2(dt.month as int) + seq!['-'] + pad2(dt.day as int)
        + seq![' '] + pad2(dt.hour as int) + seq![':'] + pad2(dt.minute as int)
}

/// Append the two-digit zero-padded text of `n`.
fn push_pad2(out: &mut String, n: u32)
    requires
        n < 100,
    ensures
        final(out)@ == old(out)@ + pad2(n as int),
{
    let d = crate::num::u64_to_string((n / 10) as u64);
    out.append(d.as_str());
    let d = crate::num::u64_to_string((n % 10) as u64);
    out.append(d.as_str());
    proof {
        assert(final(out)@ =~= old(out)@ + pad2(n as int));
    }
}

/// Append the four-digit zero-padded text of `n`.
fn push_pad4(out: &mut String, n: u32)
    requires
        n < 10000,
    ensures
        final(out)@ == old(out)@ + pad4(n as int),
{
    let d = crate::num::u64_to_string((n / 1000) as u64);
    out.append(d.as_str());
    let d = crate::num::u64_to_string(((n / 100) % 10) as u64);
    out.append(d.as_str());
    let d = crate::num::u64_to_string(((n / 10) % 10) as u64);
    out.append(d.as_str());
    let d = crate::num::u64_to_string((n % 10) as u64);
    out.append(d.as_str());
    proof {
        assert(final(out)@ =~= old(out)@ + pad4(n as int));
    }
}

/// Basic ISO timestamp encoder, `YYYY-MM-DDTHH:MM:SS`: the form that
/// outbound date-filter parameters take in a query string.
pub fn format_iso_basic(dt: &DateTime) -> (r: String)
    requires
        dt.wf(),
    ensures
        r@ == iso_basic_str(*dt),
{
    let mut out = String::new();
    push_pad4(&mut out, dt.year);
    out.append("-");
    push_pad2(&mut out, dt.month);
    out.append("-");
    push_pad2(&mut out, dt.day);
    out.append("T");
    push_pad2(&mut out, dt.hour);
    out.append(":");
    push_pad2(&mut out, dt.minute);
    out.append(":");
    push_pad2(&mut out, dt.second);
    proof {
        reveal_strlit("-");
        reveal_strlit("T");
        reveal_strlit(":");
        assert(out@ =~= iso_basic_str(*dt));
    }
    out
}

/// Touch timestamp encoder, `YYYY-MM-DD HH:MM`: the serialize-only form
/// of journey touch-on and touch-off query parameters.
pub fn date_yyyy_mm_dd_hhmm(dt: &DateTime) -> (r: String)
    requires
        dt.wf(),
    ensures
        r@ == touch_str(*dt),
{
    let mut out = String::new();
    push_pad4(&mut out, dt.year);
    out.append("-");
    push_pad2(&mut out, dt.month);
    out.append("-");
    push_pad2(&mut out, dt.day);
    out.append(" ");
    push_pad2(&mut out, dt.hour);
    out.append(":");
    push_pad2(&mut out, dt.minute);
    proof {
        reveal_strlit("-");
        reveal_strlit(" ");
        reveal_strlit(":");
        assert(out@ =~= touch_str(*dt));
    }
    out
}

} // verus!
