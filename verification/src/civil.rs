use vstd::prelude::*;
use vstd::string::*;

use crate::text::{digit_val, is_digit_char};
use crate::time::Timestamp;

verus! {

/// A civil (wall-clock) date and time, not yet resolved in any time zone:
/// what the accepted date-time texts denote.
#[derive(Clone, Copy, PartialEq, Eq, Structural, Debug)]
pub struct CivilDateTime {
    pub year: u32,
    pub month: u32,
    pub day: u32,
    pub hour: u32,
    pub minute: u32,
    pub second: u32,
}

pub open spec fn is_leap_year(y: int) -> bool {
    (y % 4 == 0 && y % 100 != 0) || y % 400 == 0
}

pub open spec fn days_in_month(y: int, m: int) -> int {
    if m == 2 {
        if is_leap_year(y) {
            29
        } else {
            28
        }
    } else if m == 4 || m == 6 || m == 9 || m == 11 {
        30
    } else {
        31
    }
}

impl CivilDateTime {
    /// A real calendar date (four-digit year, leap years included) with a
    /// real time of day.
    pub open spec fn valid(&self) -> bool {
        &&& self.year <= 9999
        &&& 1 <= self.month <= 12
        &&& 1 <= self.day <= days_in_month(self.year as int, self.month as int)
        &&& self.hour <= 23
        &&& self.minute <= 59
        &&& self.second <= 59
    }
}

pub open spec fn two_digits(s: Seq<char>, i: int) -> bool {
    is_digit_char(s[i]) && is_digit_char(s[i + 1])
}

pub open spec fn two_val(s: Seq<char>, i: int) -> int {
    digit_val(s[i]) * 10 + digit_val(s[i + 1])
}

pub open spec fn four_digits(s: Seq<char>, i: int) -> bool {
    two_digits(s, i) && two_digits(s, i + 2)
}

pub open spec fn four_val(s: Seq<char>, i: int) -> int {
    two_val(s, i) * 100 + two_val(s, i + 2)
}

/// The shape `YYYYsMMsDD HH:MM` (16 characters), or with `:SS` appended
/// (19 characters) when `with_seconds`, where `s` is the date separator.
pub open spec fn date_time_shape(s: Seq<char>, sep: char, with_seconds: bool) -> bool {
    &&& s.len() == if with_seconds {
        19int
    } else {
        16int
    }
    &&& four_digits(s, 0)
    &&& s[4] == sep
    &&& two_digits(s, 5)
    &&& s[7] == sep
    &&& two_digits(s, 8)
    &&& s[10] == ' '
    &&& two_digits(s, 11)
    &&& s[13] == ':'
    &&& two_digits(s, 14)
    &&& (with_seconds ==> s[16] == ':' && two_digits(s, 17))
}

/// The civil value a text of one of the accepted shapes denotes; the
/// seconds are zero when the shape carries none.
pub open spec fn civil_of(s: Seq<char>, with_seconds: bool) -> CivilDateTime {
    CivilDateTime {
        year: four_val(s, 0) as u32,
        month: two_val(s, 5) as u32,
        day: two_val(s, 8) as u32,
        hour: two_val(s, 11) as u32,
        minute: two_val(s, 14) as u32,
        second: if with_seconds {
            two_val(s, 17) as u32
        } else {
            0
        },
    }
}

pub open spec fn checked(c: CivilDateTime) -> Option<CivilDateTime> {
    if c.valid() {
        Some(c)
    } else {
        None
    }
}

/// The accepted date-time texts, tried in order: `YYYY-MM-DD HH:MM`,
/// `YYYY-MM-DD HH:MM:SS`, `YYYY/MM/DD HH:MM`, `YYYY/MM/DD HH:MM:SS`,
/// each denoting a real calendar date and time of day.  Anything else
/// parses to nothing.
pub open spec fn spec_parse_civil(s: Seq<char>) -> Option<CivilDateTime> {
    if date_time_shape(s, '-', false) {
        checked(civil_of(s, false))
    } else if date_time_shape(s, '-', true) {
        checked(civil_of(s, true))
    } else if date_time_shape(s, '/', false) {
        checked(civil_of(s, false))
    } else if date_time_shape(s, '/', true) {
        checked(civil_of(s, true))
    } else {
        None
    }
}

fn digit_at(s: &str, i: usize) -> (r: Option<u32>)
    requires
        i < s@.len(),
    ensures
        r matches Some(d) ==> is_digit_char(s@[i as int]) && d == digit_val(s@[i as int]),
        r is None ==> !is_digit_char(s@[i as int]),
{
    let u = s.get_char(i) as u32;
    if 0x30 <= u && u <= 0x39 {
        Some(u - 0x30)
    } else {
        None
    }
}

fn two_at(s: &str, i: usize) -> (r: Option<u32>)
    requires
        i < usize::MAX,
        i + 1 < s@.len(),
    ensures
        r matches Some(v) ==> two_digits(s@, i as int) && v == two_val(s@, i as int),
        r is None ==> !two_digits(s@, i as int),
{
    match (digit_at(s, i), digit_at(s, i + 1)) {
        (Some(a), Some(b)) => Some(a * 10 + b),
        _ => None,
    }
}

fn is_leap(y: u32) -> (r: bool)
    ensures
        r == is_leap_year(y as int),
{
    (y % 4 == 0 && y % 100 != 0) || y % 400 == 0
}

fn month_days(y: u32, m: u32) -> (r: u32)
    ensures
        r == days_in_month(y as int, m as int),
{
    if m == 2 {
        if is_leap(y) {
            29
        } else {
            28
        }
    } else if m == 4 || m == 6 || m == 9 || m == 11 {
        30
    } else {
        31
    }
}

fn check_valid(c: &CivilDateTime) -> (r: bool)
    ensures
        r == c.valid(),
{
    c.year <= 9999 && 1 <= c.month && c.month <= 12 && 1 <= c.day && c.day <= month_days(
        c.year,
        c.month,
    ) && c.hour <= 23 && c.minute <= 59 && c.second <= 59
}

/// Parse a date-time text against the accepted formats.
pub fn parse_civil(s: &str) -> (r: Option<CivilDateTime>)
    ensures
        r == spec_parse_civil(s@),
{
    let n = s.unicode_len();
    if n != 16 && n != 19 {
        return None;
    }
    let with_seconds = n == 19;
    let sep = s.get_char(4);
    if !(sep == '-' || sep == '/') {
        return None;
    }
    if s.get_char(7) != sep {
        return None;
    }
    if s.get_char(10) != ' ' || s.get_char(13) != ':' {
        return None;
    }
    if with_seconds && s.get_char(16) != ':' {
        return None;
    }
    let parts = (
        two_at(s, 0),
        two_at(s, 2),
        two_at(s, 5),
        two_at(s, 8),
        two_at(s, 11),
        two_at(s, 14),
    );
    if let (Some(y1), Some(y2), Some(mo), Some(d), Some(h), Some(mi)) = parts {
        let sec = if with_seconds {
            match two_at(s, 17) {
                Some(v) => v,
                None => {
                    return None;
                },
            }
        } else {
            0
        };
        let c = CivilDateTime {
            year: y1 * 100 + y2,
            month: mo,
            day: d,
            hour: h,
            minute: mi,
            second: sec,
        };
        if check_valid(&c) {
            Some(c)
        } else {
            None
        }
    } else {
        None
    }
}

/// Relies on chrono to resolve a civil date-time in the machine's local
/// time zone: `NaiveDate::from_ymd_opt` and `NaiveDate::and_hms_opt`
/// build the value (they accept every valid civil time), `Local`'s
/// `TimeZone::from_local_datetime` maps it to an instant (`None` when the
/// zone skips or repeats that wall-clock time), and `DateTime::timestamp`
/// and `DateTime::to_rfc3339` read the instant out.  With the year at
/// most 9999 the second count stays far inside the library's range.
#[verifier::external_body]
pub fn civil_to_local(c: &CivilDateTime) -> (r: Option<Timestamp>)
    requires
        c.valid(),
    ensures
        r matches Some(t) ==> t.wf(),
{
    let date = chrono::NaiveDate::from_ymd_opt(c.year as i32, c.month, c.day)?;
    let ndt = date.and_hms_opt(c.hour, c.minute, c.second)?;
    let dt = chrono::TimeZone::from_local_datetime(&chrono::Local, &ndt).single()?;
    Some(Timestamp { seconds: dt.timestamp(), rfc3339: dt.to_rfc3339() })
}

} // verus!
