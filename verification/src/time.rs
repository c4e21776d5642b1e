//! Service times, civil dates and the human-readable renderings of times.
use vstd::prelude::*;

use crate::text::{
    chars_of, decimal, find_char, first_index_of, parse_radix, push_decimal, push_padded,
    push_str, radix_parse, slice_skip, string_from_chars, zero_pad,
};

verus! {

// ───────────────────────────── GTFS service time ─────────────────────────────

/// A GTFS service time, which may exceed 24 hours for post-midnight trips.
///
/// The GTFS spec allows `HH:MM:SS` where HH ≥ 24 to represent times that run
/// past midnight of the service day — e.g. `25:22:00` means 01:22 AM the
/// following calendar day. The value is the number of seconds since midnight
/// of the service day.
#[derive(Debug, Clone, Copy, PartialEq, Eq, Structural, PartialOrd, Ord, Hash)]
pub struct GtfsTime(u32);

impl View for GtfsTime {
    type V = u32;

    closed spec fn view(&self) -> u32 {
        self.0
    }
}

/// The seconds that a `HH:MM:SS` service time denotes: the text is split at
/// its first two colons (the third piece keeps any further colons), each
/// piece must be an unsigned decimal integer (an optional `+`, then digits),
/// minutes and seconds must be below 60, and the total must fit in a `u32`.
pub open spec fn gtfs_time_secs(s: Seq<char>) -> Option<nat> {
    match first_index_of(s, ':') {
        None => None,
        Some(i) => {
            let rest = s.skip(i + 1);
            match first_index_of(rest, ':') {
                None => None,
                Some(j) => {
                    let h = radix_parse(s.take(i), 10, u32::MAX as nat);
                    let m = radix_parse(rest.take(j), 10, u32::MAX as nat);
                    let sec = radix_parse(rest.skip(j + 1), 10, u32::MAX as nat);
                    if h is Some && m is Some && sec is Some && m->0 < 60 && sec->0 < 60 && h->0
                        * 3600 + m->0 * 60 + sec->0 <= u32::MAX {
                        Some(h->0 * 3600 + m->0 * 60 + sec->0)
                    } else {
                        None
                    }
                },
            }
        },
    }
}

/// The message of a rejected service time.
pub open spec fn invalid_time_message(s: Seq<char>) -> Seq<char> {
    "invalid GTFS time: "@ + s
}

/// `HH:MM` of a service time, with `HH` taken past 24 as `HH-24` and a
/// `+1d` marker appended.
pub open spec fn gtfs_time_text(secs: nat) -> Seq<char> {
    let h = secs / 3600;
    let m = (secs % 3600) / 60;
    if h < 24 {
        zero_pad(decimal(h), 2) + ":"@ + zero_pad(decimal(m), 2)
    } else {
        zero_pad(decimal((h - 24) as nat), 2) + ":"@ + zero_pad(decimal(m), 2) + "+1d"@
    }
}

impl GtfsTime {
    /// Seconds since midnight of the service day.
    pub fn as_secs(self) -> (r: u32)
        ensures
            r == self@,
    {
        self.0
    }

    /// Parses `HH:MM:SS` (see `gtfs_time_secs`). Hours may exceed 23.
    ///
    /// # Errors
    /// `invalid GTFS time: <s>` when the text is not such a time.
    pub fn parse(s: &str) -> (res: Result<GtfsTime, String>)
        ensures
            match res {
                Ok(t) => gtfs_time_secs(s@) == Some(t@ as nat),
                Err(msg) => gtfs_time_secs(s@) is None && msg@ == invalid_time_message(s@),
            },
    {
        let cs = chars_of(s);
        match Self::parse_chars(cs.as_slice()) {
            Some(v) => Ok(GtfsTime(v)),
            None => {
                let mut msg: Vec<char> = Vec::new();
                push_str(&mut msg, "invalid GTFS time: ");
                push_str(&mut msg, s);
                Err(string_from_chars(msg.as_slice()))
            },
        }
    }

    /// The seconds of a `HH:MM:SS` service time given as characters.
    pub fn parse_chars(s: &[char]) -> (res: Option<u32>)
        ensures
            match res {
                Some(v) => gtfs_time_secs(s@) == Some(v as nat),
                None => gtfs_time_secs(s@) is None,
            },
    {
        let i = match find_char(s, ':') {
            Some(i) => i,
            None => return None,
        };
        let head = crate::text::sub_chars(s, 0, i);
        assert(head@ =~= s@.take(i as int));
        let rest = slice_skip(s, i + 1);
        let j = match find_char(rest, ':') {
            Some(j) => j,
            None => return None,
        };
        let mid = crate::text::sub_chars(rest, 0, j);
        assert(mid@ =~= rest@.take(j as int));
        let tail = slice_skip(rest, j + 1);
        let h = parse_radix(head.as_slice(), 10, u32::MAX);
        let m = parse_radix(mid.as_slice(), 10, u32::MAX);
        let sec = parse_radix(tail, 10, u32::MAX);
        match (h, m, sec) {
            (Some(h), Some(m), Some(sec)) => {
                if m >= 60 || sec >= 60 {
                    return None;
                }
                let total: u64 = (h as u64) * 3600 + (m as u64) * 60 + (sec as u64);
                if total > u32::MAX as u64 {
                    None
                } else {
                    Some(total as u32)
                }
            },
            _ => None,
        }
    }

    /// `HH:MM` of this time; past 24 hours the wall-clock hour is shown
    /// with a `+1d` marker (see `gtfs_time_text`).
    pub fn to_string(&self) -> (res: String)
        ensures
            res@ == gtfs_time_text(self@ as nat),
    {
        let h = self.0 / 3600;
        let m = (self.0 % 3600) / 60;
        let mut out: Vec<char> = Vec::new();
        if h < 24 {
            push_padded(&mut out, h as u64, 2);
            push_str(&mut out, ":");
            push_padded(&mut out, m as u64, 2);
        } else {
            push_padded(&mut out, (h - 24) as u64, 2);
            push_str(&mut out, ":");
            push_padded(&mut out, m as u64, 2);
            push_str(&mut out, "+1d");
        }
        string_from_chars(out.as_slice())
    }
}

impl core::str::FromStr for GtfsTime {
    type Err = String;

    fn from_str(s: &str) -> (res: Result<GtfsTime, String>)
        ensures
            match res {
                Ok(t) => gtfs_time_secs(s@) == Some(t@ as nat),
                Err(msg) => gtfs_time_secs(s@) is None && msg@ == invalid_time_message(s@),
            },
    {
        GtfsTime::parse(s)
    }
}

// ───────────────────────────── clock renderings ─────────────────────────────

/// `HH:MM` of a seconds-since-midnight value, the hour taken modulo 24.
pub open spec fn hhmm_text(secs: nat) -> Seq<char> {
    zero_pad(decimal((secs / 3600) % 24), 2) + ":"@ + zero_pad(decimal((secs % 3600) / 60), 2)
}

/// Format a `GtfsTime` raw value (seconds since midnight) as `"HH:MM"`.
/// Values ≥ 86400 (post-midnight service) are wrapped to wall-clock time.
pub fn format_hhmm(secs: u32) -> (res: String)
    ensures
        res@ == hhmm_text(secs as nat),
{
    let h = (secs / 3600) % 24;
    let m = (secs % 3600) / 60;
    let mut out: Vec<char> = Vec::new();
    push_padded(&mut out, h as u64, 2);
    push_str(&mut out, ":");
    push_padded(&mut out, m as u64, 2);
    string_from_chars(out.as_slice())
}

/// The countdown text for a departure `diff` seconds after now:
/// `"<m>m ago"` once it left over a minute ago, `"now"` within a minute
/// either way, else `"in <m>m"` or `"in <h>h <m>m"` with minutes rounded up.
pub open spec fn relative_text(diff: int) -> Seq<char> {
    if diff <= -61 {
        decimal(((-diff) / 60) as nat) + "m ago"@
    } else if diff <= 60 {
        "now"@
    } else {
        let mins = (diff + 59) / 60;
        if mins >= 60 {
            "in "@ + decimal((mins / 60) as nat) + "h "@ + decimal((mins % 60) as nat) + "m"@
        } else {
            "in "@ + decimal(mins as nat) + "m"@
        }
    }
}

/// Human-readable relative departure time.
/// - Negative (departed 1+ min ago): `"2m ago"`
/// - Within ±60s:                    `"now"`
/// - Future:                         `"in 5m"` / `"in 1h 30m"`
pub fn relative_time(departure_secs: u32, now_secs: u32) -> (res: String)
    ensures
        res@ == relative_text(departure_secs - now_secs),
{
    let diff: i64 = (departure_secs as i64) - (now_secs as i64);
    let mut out: Vec<char> = Vec::new();
    if diff <= -61 {
        push_decimal(&mut out, ((-diff) / 60) as u64);
        push_str(&mut out, "m ago");
    } else if diff <= 60 {
        push_str(&mut out, "now");
    } else {
        let mins = (diff + 59) / 60;
        if mins >= 60 {
            push_str(&mut out, "in ");
            push_decimal(&mut out, (mins / 60) as u64);
            push_str(&mut out, "h ");
            push_decimal(&mut out, (mins % 60) as u64);
            push_str(&mut out, "m");
        } else {
            push_str(&mut out, "in ");
            push_decimal(&mut out, mins as u64);
            push_str(&mut out, "m");
        }
    }
    string_from_chars(out.as_slice())
}

/// Whole minutes between now and a departure `diff` seconds later, truncated
/// toward zero: `"+<m>m"` when not negative, `"<m>m ago"` otherwise.
pub open spec fn minutes_offset_text(diff: int) -> Seq<char> {
    let mins = if diff >= 0 { diff / 60 } else { -((-diff) / 60) };
    if mins >= 0 {
        "+"@ + decimal(mins as nat) + "m"@
    } else {
        decimal((-mins) as nat) + "m ago"@
    }
}

/// Returns "+Xm" (upcoming) or "Xm ago" (past) for a departure `diff_secs`
/// seconds after now (minutes truncated toward zero).
pub fn minutes_offset(diff_secs: i128) -> (res: String)
    requires
        -0x20_0000_0000_0000_0000 < diff_secs < 0x20_0000_0000_0000_0000,
    ensures
        res@ == minutes_offset_text(diff_secs as int),
{
    let mins: i128 = if diff_secs >= 0 { diff_secs / 60 } else { -((-diff_secs) / 60) };
    proof {
        let d = diff_secs as int;
        if d >= 0 {
            assert(d / 60 < 0x1_0000_0000_0000_0000) by (nonlinear_arith)
                requires
                    0 <= d < 0x20_0000_0000_0000_0000,
            ;
        } else {
            assert((-d) / 60 < 0x1_0000_0000_0000_0000) by (nonlinear_arith)
                requires
                    0 < -d < 0x20_0000_0000_0000_0000,
            ;
        }
    }
    let mut out: Vec<char> = Vec::new();
    if mins >= 0 {
        push_str(&mut out, "+");
        push_decimal(&mut out, mins as u64);
        push_str(&mut out, "m");
    } else {
        push_decimal(&mut out, (-mins) as u64);
        push_str(&mut out, "m ago");
    }
    string_from_chars(out.as_slice())
}

// ───────────────────────────── civil dates ─────────────────────────────

/// A day of the week.
#[derive(Debug, Clone, Copy, PartialEq, Eq, Structural)]
pub enum Weekday {
    Monday,
    Tuesday,
    Wednesday,
    Thursday,
    Friday,
    Saturday,
    Sunday,
}

/// The weekday numbered from Monday = 1 to Sunday = 7.
pub open spec fn weekday_from_number(n: int) -> Weekday {
    if n == 1 {
        Weekday::Monday
    } else if n == 2 {
        Weekday::Tuesday
    } else if n == 3 {
        Weekday::Wednesday
    } else if n == 4 {
        Weekday::Thursday
    } else if n == 5 {
        Weekday::Friday
    } else if n == 6 {
        Weekday::Saturday
    } else {
        Weekday::Sunday
    }
}

pub open spec fn is_leap_year(y: int) -> bool {
    y % 4 == 0 && (y % 100 != 0 || y % 400 == 0)
}

pub open spec fn days_in_month(y: int, m: int) -> int {
    if m == 2 {
        if is_leap_year(y) { 29 } else { 28 }
    } else if m == 4 || m == 6 || m == 9 || m == 11 {
        30
    } else {
        31
    }
}

/// A Gregorian date in the range that `jiff` supports.
pub open spec fn is_valid_civil_date(y: int, m: int, d: int) -> bool {
    &&& -9999 <= y <= 9999
    &&& 1 <= m <= 12
    &&& 1 <= d <= days_in_month(y, m)
}

/// The number of days from 1970-01-01 to the proleptic Gregorian date
/// `year-month-day` (negative before it).
pub open spec fn days_from_civil(year: int, month: int, day: int) -> int {
    let y = if month <= 2 { year - 1 } else { year };
    let era = y / 400;
    let yoe = y - era * 400;
    let mp = (month + 9) % 12;
    let doy = (153 * mp + 2) / 5 + day - 1;
    let doe = yoe * 365 + yoe / 4 - yoe / 100 + doy;
    era * 146097 + doe - 719468
}

/// The weekday of a date, numbered from Monday = 1 to Sunday = 7
/// (1970-01-01 was a Thursday).
pub open spec fn weekday_number(year: int, month: int, day: int) -> int {
    (days_from_civil(year, month, day) + 3) % 7 + 1
}

#[verifier::external_body]
fn jiff_weekday(year: i16, month: i8, day: i8) -> (res: i8)
    requires
        is_valid_civil_date(year as int, month as int, day as int),
    ensures
        res as int == weekday_number(year as int, month as int, day as int),
{
    jiff::civil::date(year, month, day).weekday().to_monday_one_offset()
}

/// A calendar date (proleptic Gregorian, years -9999 to 9999).
#[derive(Debug, Clone, Copy, PartialEq, Eq, Structural)]
pub struct CivilDate {
    year: i16,
    month: i8,
    day: i8,
}

impl View for CivilDate {
    type V = (int, int, int);

    closed spec fn view(&self) -> (int, int, int) {
        (self.year as int, self.month as int, self.day as int)
    }
}

/// `YYYYMMDD`: the year zero-padded to four places (a negative year as `-`
/// and three places), month and day to two — the date format of GTFS.
pub open spec fn date_key_text(y: int, m: int, d: int) -> Seq<char> {
    let year = if y < 0 { "-"@ + zero_pad(decimal((-y) as nat), 3) } else { zero_pad(
        decimal(y as nat),
        4,
    ) };
    year + zero_pad(decimal(m as nat), 2) + zero_pad(decimal(d as nat), 2)
}

impl CivilDate {
    #[verifier::type_invariant]
    spec fn valid(self) -> bool {
        is_valid_civil_date(self.year as int, self.month as int, self.day as int)
    }

    /// The date `year-month-day`, when it exists.
    pub fn new(year: i16, month: i8, day: i8) -> (res: Option<CivilDate>)
        ensures
            match res {
                Some(d) => is_valid_civil_date(year as int, month as int, day as int) && d@ == (
                    year as int,
                    month as int,
                    day as int,
                ),
                None => !is_valid_civil_date(year as int, month as int, day as int),
            },
    {
        if year < -9999 || year > 9999 || month < 1 || month > 12 || day < 1 {
            return None;
        }
        let leap = year % 4 == 0 && (year % 100 != 0 || year % 400 == 0);
        let dim: i8 = if month == 2 {
            if leap { 29 } else { 28 }
        } else if month == 4 || month == 6 || month == 9 || month == 11 {
            30
        } else {
            31
        };
        if day > dim {
            return None;
        }
        Some(CivilDate { year, month, day })
    }

    pub fn year(&self) -> (r: i16)
        ensures
            r as int == self@.0,
    {
        self.year
    }

    pub fn month(&self) -> (r: i8)
        ensures
            r as int == self@.1,
    {
        self.month
    }

    pub fn day(&self) -> (r: i8)
        ensures
            r as int == self@.2,
    {
        self.day
    }

    /// The day of the week (see `weekday_number`).
    pub fn weekday(&self) -> (w: Weekday)
        ensures
            w == weekday_from_number(weekday_number(self@.0, self@.1, self@.2)),
    {
        proof { use_type_invariant(self); }
        let n = jiff_weekday(self.year, self.month, self.day);
        if n == 1 {
            Weekday::Monday
        } else if n == 2 {
            Weekday::Tuesday
        } else if n == 3 {
            Weekday::Wednesday
        } else if n == 4 {
            Weekday::Thursday
        } else if n == 5 {
            Weekday::Friday
        } else if n == 6 {
            Weekday::Saturday
        } else {
            Weekday::Sunday
        }
    }

    /// The date as GTFS writes it, `YYYYMMDD` (see `date_key_text`).
    pub fn date_key(&self) -> (res: Vec<char>)
        ensures
            res@ == date_key_text(self@.0, self@.1, self@.2),
    {
        proof { use_type_invariant(self); }
        let mut out: Vec<char> = Vec::new();
        if self.year < 0 {
            push_str(&mut out, "-");
            push_padded(&mut out, (-(self.year as i32)) as u64, 3);
        } else {
            push_padded(&mut out, self.year as u64, 4);
        }
        push_padded(&mut out, self.month as u64, 2);
        push_padded(&mut out, self.day as u64, 2);
        out
    }
}

} // verus!
