//! Proleptic Gregorian calendar arithmetic over UTC epoch seconds.
//!
//! All instants are unsigned seconds since 1970-01-01T00:00:00Z; every day
//! is exactly 86,400 seconds long in this time scale.

use vstd::prelude::*;

verus! {

pub const SECONDS_PER_DAY: u64 = 86400;
pub const SECONDS_PER_HOUR: u64 = 3600;
pub const SECONDS_PER_MINUTE: u64 = 60;

/// A calendar date in the proleptic Gregorian calendar, on or after 1970-01-01.
#[derive(Clone, Copy, PartialEq, Eq, Structural, Debug)]
pub struct Date {
    pub year: u64,
    pub month: u64,
    pub day: u64,
}

/// A wall-clock time of day.
#[derive(Clone, Copy, PartialEq, Eq, Structural, Debug)]
pub struct TimeOfDay {
    pub hour: u64,
    pub minute: u64,
    pub second: u64,
}

/// A calendar date together with a time of day, in UTC.
#[derive(Clone, Copy, PartialEq, Eq, Structural, Debug)]
pub struct DateTime {
    pub date: Date,
    pub time: TimeOfDay,
}

pub open spec fn spec_is_leap_year(y: int) -> bool {
    y % 4 == 0 && (y % 100 != 0 || y % 400 == 0)
}

pub open spec fn spec_days_in_year(y: int) -> int {
    if spec_is_leap_year(y) {
        366
    } else {
        365
    }
}

pub open spec fn spec_days_in_month(y: int, m: int) -> int {
    if m == 2 {
        if spec_is_leap_year(y) {
            29
        } else {
            28
        }
    } else if m == 4 || m == 6 || m == 9 || m == 11 {
        30
    } else {
        31
    }
}

/// Days from 1970-01-01 to the first day of year `y`.
pub open spec fn spec_days_before_year(y: int) -> int
    decreases y,
{
    if y <= 1970 {
        0
    } else {
        spec_days_before_year(y - 1) + spec_days_in_year(y - 1)
    }
}

/// Days from the first day of year `y` to the first day of its month `m`.
pub open spec fn spec_days_before_month(y: int, m: int) -> int
    decreases m,
{
    if m <= 1 {
        0
    } else {
        spec_days_before_month(y, m - 1) + spec_days_in_month(y, m - 1)
    }
}

/// Number of whole days from 1970-01-01 to date `d`.
pub open spec fn spec_day_index(d: Date) -> int {
    spec_days_before_year(d.year as int) + spec_days_before_month(d.year as int, d.month as int)
        + d.day - 1
}

pub open spec fn spec_seconds_of_day(t: TimeOfDay) -> int {
    t.hour * 3600 + t.minute * 60 + t.second
}

/// The epoch instant, in seconds, that a date-time denotes.
pub open spec fn spec_epoch_of(dt: DateTime) -> int {
    spec_day_index(dt.date) * 86400 + spec_seconds_of_day(dt.time)
}

pub open spec fn date_valid(d: Date) -> bool {
    &&& 1970 <= d.year
    &&& 1 <= d.month <= 12
    &&& 1 <= d.day <= spec_days_in_month(d.year as int, d.month as int)
}

pub open spec fn time_valid(t: TimeOfDay) -> bool {
    t.hour < 24 && t.minute < 60 && t.second < 60
}

pub open spec fn datetime_valid(dt: DateTime) -> bool {
    date_valid(dt.date) && time_valid(dt.time)
}

pub fn is_leap_year(y: u64) -> (r: bool)
    ensures
        r == spec_is_leap_year(y as int),
{
    y % 4 == 0 && (y % 100 != 0 || y % 400 == 0)
}

pub fn days_in_year(y: u64) -> (r: u64)
    ensures
        r == spec_days_in_year(y as int),
        365 <= r <= 366,
{
    if is_leap_year(y) {
        366
    } else {
        365
    }
}

pub fn days_in_month(y: u64, m: u64) -> (r: u64)
    ensures
        r == spec_days_in_month(y as int, m as int),
        28 <= r <= 31,
{
    if m == 2 {
        if is_leap_year(y) {
            29
        } else {
            28
        }
    } else if m == 4 || m == 6 || m == 9 || m == 11 {
        30
    } else {
        31
    }
}

pub proof fn lemma_days_before_year_nonneg(y: int)
    ensures
        spec_days_before_year(y) >= 0,
    decreases y - 1970,
{
    if y > 1970 {
        lemma_days_before_year_nonneg(y - 1);
    }
}

pub proof fn lemma_days_before_month_nonneg(y: int, m: int)
    ensures
        spec_days_before_month(y, m) >= 0,
    decreases m,
{
    if m > 1 {
        lemma_days_before_month_nonneg(y, m - 1);
    }
}

pub proof fn lemma_days_before_year_mono(a: int, b: int)
    requires
        a <= b,
    ensures
        spec_days_before_year(a) <= spec_days_before_year(b),
    decreases b - a,
{
    if a < b {
        lemma_days_before_year_mono(a, b - 1);
    }
}

pub proof fn lemma_days_before_month_mono(y: int, a: int, b: int)
    requires
        a <= b,
    ensures
        spec_days_before_month(y, a) <= spec_days_before_month(y, b),
    decreases b - a,
{
    if a < b {
        lemma_days_before_month_mono(y, a, b - 1);
    }
}

/// The months of a year account for exactly its days.
pub proof fn lemma_months_of_year(y: int)
    ensures
        spec_days_before_month(y, 13) == spec_days_in_year(y),
{
    reveal_with_fuel(spec_days_before_month, 13);
}

pub open spec fn spec_is_digit(c: char) -> bool {
    48 <= c as u32 <= 57
}

pub open spec fn spec_digit_value(c: char) -> int {
    c as u32 - 48
}

pub open spec fn spec_two_digits(s: Seq<char>, i: int) -> int {
    10 * spec_digit_value(s[i]) + spec_digit_value(s[i + 1])
}

/// A time of day written exactly "HH:MM:SS" — two digits each, colons
/// between, every field in range — or None for any other text.
pub open spec fn spec_time_of_day_str(s: Seq<char>) -> Option<TimeOfDay> {
    if s.len() == 8 && s[2] == ':' && s[5] == ':' && spec_is_digit(s[0]) && spec_is_digit(s[1])
        && spec_is_digit(s[3]) && spec_is_digit(s[4]) && spec_is_digit(s[6]) && spec_is_digit(s[7])
        && spec_two_digits(s, 0) < 24 && spec_two_digits(s, 3) < 60 && spec_two_digits(s, 6)
        < 60 {
        Some(
            TimeOfDay {
                hour: spec_two_digits(s, 0) as u64,
                minute: spec_two_digits(s, 3) as u64,
                second: spec_two_digits(s, 6) as u64,
            },
        )
    } else {
        None
    }
}

/// The value of a two-digit field at position `i` of an eight-character
/// time text.
fn two_digit_field(s: &str, i: usize) -> (r: Option<u64>)
    requires
        s@.len() == 8,
        i < 7,
    ensures
        r is Some <==> spec_is_digit(s@[i as int]) && spec_is_digit(s@[i + 1]),
        r matches Some(v) ==> v == spec_two_digits(s@, i as int) && v <= 99,
{
    let high = s.get_char(i) as u32;
    let low = s.get_char(i + 1) as u32;
    if 48 <= high && high <= 57 && 48 <= low && low <= 57 {
        Some((10 * (high - 48) + (low - 48)) as u64)
    } else {
        None
    }
}

/// Parse a time of day written exactly "HH:MM:SS"; anything else — a missing
/// digit, a stray character, a field out of range — is None.
pub fn parse_time_of_day(s: &str) -> (r: Option<TimeOfDay>)
    ensures
        r == spec_time_of_day_str(s@),
        r matches Some(t) ==> time_valid(t),
{
    if s.unicode_len() != 8 {
        return None;
    }
    if s.get_char(2) != ':' || s.get_char(5) != ':' {
        return None;
    }
    let hour = match two_digit_field(s, 0) {
        Some(v) => v,
        None => {
            return None;
        },
    };
    let minute = match two_digit_field(s, 3) {
        Some(v) => v,
        None => {
            return None;
        },
    };
    let second = match two_digit_field(s, 6) {
        Some(v) => v,
        None => {
            return None;
        },
    };
    if hour >= 24 || minute >= 60 || second >= 60 {
        return None;
    }
    Some(TimeOfDay { hour, minute, second })
}

/// LAW: an instant's time of day, read off its calendar form, is the
/// instant's seconds modulo one day; so a contract over `% 86400` speaks
/// exactly of the wall clock.
pub proof fn lemma_time_of_day_of_epoch(dt: DateTime)
    requires
        datetime_valid(dt),
    ensures
        spec_epoch_of(dt) % 86400 == spec_seconds_of_day(dt.time),
{
    vstd::arithmetic::div_mod::lemma_mod_multiples_vanish(
        spec_day_index(dt.date),
        spec_seconds_of_day(dt.time),
        86400,
    );
    vstd::arithmetic::div_mod::lemma_small_mod(spec_seconds_of_day(dt.time) as nat, 86400);
}

/// Decompose an epoch instant into its calendar date and time of day.
pub fn civil_from_epoch(secs: u64) -> (dt: DateTime)
    ensures
        datetime_valid(dt),
        spec_epoch_of(dt) == secs,
        dt.date.year <= 1970 + secs / 86400,
{
    let days: u64 = secs / SECONDS_PER_DAY;
    let rem: u64 = secs % SECONDS_PER_DAY;
    proof {
        vstd::arithmetic::div_mod::lemma_fundamental_div_mod(secs as int, 86400);
        vstd::arithmetic::div_mod::lemma_div_is_ordered(secs as int, u64::MAX as int, 86400);
    }
    let mut year: u64 = 1970;
    let mut d: u64 = days;
    loop
        invariant
            1970 <= year,
            spec_days_before_year(year as int) + d == days,
            year - 1970 <= days - d,
            days <= u64::MAX as int / 86400,
        ensures
            1970 <= year,
            spec_days_before_year(year as int) + d == days,
            year - 1970 <= days - d,
            d < spec_days_in_year(year as int),
        decreases d,
    {
        let len = days_in_year(year);
        if d < len {
            break ;
        }
        d = d - len;
        year = year + 1;
    }
    let ghost year_offset: int = d as int;
    let mut month: u64 = 1;
    loop
        invariant
            1 <= month <= 12,
            spec_days_before_month(year as int, month as int) + d == year_offset,
            year_offset < spec_days_in_year(year as int),
        ensures
            1 <= month <= 12,
            spec_days_before_month(year as int, month as int) + d == year_offset,
            d < spec_days_in_month(year as int, month as int),
        decreases 12 - month,
    {
        let len = days_in_month(year, month);
        if d < len {
            break ;
        }
        proof {
            if month == 12 {
                lemma_months_of_year(year as int);
                assert(false);
            }
        }
        d = d - len;
        month = month + 1;
    }
    let day: u64 = d + 1;
    let hour: u64 = rem / SECONDS_PER_HOUR;
    let sub: u64 = rem % SECONDS_PER_HOUR;
    let minute: u64 = sub / SECONDS_PER_MINUTE;
    let second: u64 = sub % SECONDS_PER_MINUTE;
    proof {
        vstd::arithmetic::div_mod::lemma_fundamental_div_mod(rem as int, 3600);
        vstd::arithmetic::div_mod::lemma_fundamental_div_mod(sub as int, 60);
        vstd::arithmetic::div_mod::lemma_div_is_ordered(rem as int, 86399, 3600);
        vstd::arithmetic::div_mod::lemma_div_is_ordered(sub as int, 3599, 60);
    }
    DateTime {
        date: Date { year, month, day },
        time: TimeOfDay { hour, minute, second },
    }
}

/// Recompose a valid calendar date-time into its epoch instant.
pub fn epoch_from_civil(dt: &DateTime) -> (secs: u64)
    requires
        datetime_valid(*dt),
        spec_epoch_of(*dt) <= u64::MAX,
    ensures
        secs == spec_epoch_of(*dt),
{
    proof {
        lemma_days_before_year_nonneg(dt.date.year as int);
        lemma_days_before_month_nonneg(dt.date.year as int, dt.date.month as int);
    }
    let mut days: u64 = 0;
    let mut y: u64 = 1970;
    while y < dt.date.year
        invariant
            1970 <= y <= dt.date.year,
            days == spec_days_before_year(y as int),
            datetime_valid(*dt),
            spec_epoch_of(*dt) <= u64::MAX,
        decreases dt.date.year - y,
    {
        proof {
            lemma_days_before_year_mono(y as int + 1, dt.date.year as int);
            lemma_days_before_month_nonneg(dt.date.year as int, dt.date.month as int);
        }
        let len = days_in_year(y);
        days = days + len;
        y = y + 1;
    }
    let mut m: u64 = 1;
    while m < dt.date.month
        invariant
            1 <= m <= dt.date.month,
            y == dt.date.year,
            days == spec_days_before_year(y as int) + spec_days_before_month(
                y as int,
                m as int,
            ),
            datetime_valid(*dt),
            spec_epoch_of(*dt) <= u64::MAX,
        decreases dt.date.month - m,
    {
        proof {
            lemma_days_before_month_mono(y as int, m as int + 1, dt.date.month as int);
            lemma_days_before_year_nonneg(y as int);
        }
        let len = days_in_month(y, m);
        days = days + len;
        m = m + 1;
    }
    let total_days: u64 = days + (dt.date.day - 1);
    let day_secs: u64 = total_days * SECONDS_PER_DAY;
    day_secs + dt.time.hour * SECONDS_PER_HOUR + dt.time.minute * SECONDS_PER_MINUTE
        + dt.time.second
}

/// The calendar day immediately after `d`, rolling over month and year
/// boundaries, leap years included.
pub fn next_day(d: &Date) -> (r: Date)
    requires
        date_valid(*d),
        d.year < u64::MAX,
    ensures
        date_valid(r),
        spec_day_index(r) == spec_day_index(*d) + 1,
{
    let dim = days_in_month(d.year, d.month);
    if d.day < dim {
        Date { year: d.year, month: d.month, day: d.day + 1 }
    } else if d.month < 12 {
        Date { year: d.year, month: d.month + 1, day: 1 }
    } else {
        proof {
            lemma_months_of_year(d.year as int);
        }
        Date { year: d.year + 1, month: 1, day: 1 }
    }
}

} // verus!
