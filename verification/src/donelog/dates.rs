//! Calendar dates and wall-clock times of DONE LOG entries, in local time.

use vstd::prelude::*;
use chrono::{Datelike, TimeZone, Timelike};
use crate::text::{decimal, digit_char, padded_decimal, push_all, push_str, string_of, zero_pad};

verus! {

/// The earliest and latest years a calendar date can have.
pub const MIN_YEAR: i32 = -262144;
pub const MAX_YEAR: i32 = 262143;

/// A proleptic Gregorian calendar date.
#[derive(Clone, Copy, Debug, PartialEq, Eq, Structural)]
pub struct LocalDate {
    pub year: i32,
    pub month: u32,
    pub day: u32,
}

/// A wall-clock time of day, to the second.
#[derive(Clone, Copy, Debug, PartialEq, Eq, Structural)]
pub struct LocalTime {
    pub hour: u32,
    pub minute: u32,
    pub second: u32,
}

pub open spec fn is_leap(y: int) -> bool {
    (y % 4 == 0 && y % 100 != 0) || y % 400 == 0
}

pub open spec fn days_in_month(y: int, m: int) -> int {
    if m == 2 {
        if is_leap(y) { 29 } else { 28 }
    } else if m == 4 || m == 6 || m == 9 || m == 11 {
        30
    } else {
        31
    }
}

/// Days of the year `y` before the first of month `m`.
pub open spec fn days_before_month(y: int, m: int) -> int
    decreases m,
{
    if m <= 1 {
        0
    } else {
        days_before_month(y, m - 1) + days_in_month(y, m - 1)
    }
}

/// Two decimal digits of `n < 100`.
pub open spec fn two_digits(n: int) -> Seq<char> {
    seq![digit_char(n / 10), digit_char(n % 10)]
}

/// A year as `%Y` writes it: four digits, zero-padded, for years
/// `0..=9999`; otherwise a sign followed by at least four digits.
pub open spec fn year_text(y: int) -> Seq<char> {
    if 0 <= y <= 9999 {
        zero_pad(decimal(y as nat), 4)
    } else if y < 0 {
        seq!['-'] + zero_pad(decimal((-y) as nat), 4)
    } else {
        seq!['+'] + zero_pad(decimal(y as nat), 4)
    }
}

impl LocalDate {
    /// A real date of the supported range.
    pub open spec fn valid(&self) -> bool {
        &&& MIN_YEAR <= self.year <= MAX_YEAR
        &&& 1 <= self.month <= 12
        &&& 1 <= self.day <= days_in_month(self.year as int, self.month as int)
    }

    /// Day of the year, from 1.
    pub open spec fn ordinal_spec(&self) -> int {
        days_before_month(self.year as int, self.month as int) + self.day
    }

    /// `year * 1000 + day of year`: increases with the date.
    pub open spec fn index_key_spec(&self) -> int {
        self.year * 1000 + self.ordinal_spec()
    }

    /// The date as `YYYY-MM-DD`.
    pub open spec fn text_spec(&self) -> Seq<char> {
        year_text(self.year as int) + seq!['-'] + two_digits(self.month as int) + seq!['-']
            + two_digits(self.day as int)
    }

    /// The date with the given year, month and day, if there is one.
    pub fn from_ymd(year: i32, month: u32, day: u32) -> (r: Option<Self>)
        ensures
            r is Some <==> (LocalDate { year, month, day }).valid(),
            r matches Some(d) ==> d == (LocalDate { year, month, day }),
    {
        if year < MIN_YEAR || year > MAX_YEAR || month < 1 || month > 12 || day < 1 {
            return None;
        }
        if day > month_length(year, month) {
            return None;
        }
        Some(LocalDate { year, month, day })
    }

    /// Day of the year, from 1.
    pub fn ordinal(&self) -> (r: u32)
        requires
            self.valid(),
        ensures
            r == self.ordinal_spec(),
            1 <= r <= 366,
    {
        let mut acc: u32 = 0;
        let mut k: u32 = 1;
        while k < self.month
            invariant
                self.valid(),
                1 <= k <= self.month,
                acc == days_before_month(self.year as int, k as int),
                acc <= 31 * (k - 1),
            decreases self.month - k,
        {
            acc = acc + month_length(self.year, k);
            k = k + 1;
        }
        proof {
            lemma_days_before_leap_bound(self.year as int, self.month as int);
        }
        acc + self.day
    }

    /// The key the date index is ordered by: `year * 1000 + day of year`.
    pub fn index_key(&self) -> (r: i32)
        requires
            self.valid(),
        ensures
            r == self.index_key_spec(),
    {
        self.year * 1000 + self.ordinal() as i32
    }

    /// The date as `%Y-%m-%d` writes it.
    pub fn to_text(&self) -> (r: String)
        requires
            self.valid(),
        ensures
            r@ == self.text_spec(),
    {
        let mut out = year_chars(self.year);
        out.push('-');
        push_all(&mut out, &two_digit_chars(self.month));
        out.push('-');
        push_all(&mut out, &two_digit_chars(self.day));
        string_of(&out)
    }
}

impl LocalTime {
    pub open spec fn valid(&self) -> bool {
        self.hour < 24 && self.minute < 60 && self.second < 60
    }

    /// The time as `HH:MM`.
    pub open spec fn hm_text_spec(&self) -> Seq<char> {
        two_digits(self.hour as int) + seq![':'] + two_digits(self.minute as int)
    }

    /// The time with the given hour, minute and second, if there is one.
    pub fn from_hms(hour: u32, minute: u32, second: u32) -> (r: Option<Self>)
        ensures
            r is Some <==> (LocalTime { hour, minute, second }).valid(),
            r matches Some(t) ==> t == (LocalTime { hour, minute, second }),
    {
        if hour < 24 && minute < 60 && second < 60 {
            Some(LocalTime { hour, minute, second })
        } else {
            None
        }
    }

    /// The time as `%H:%M` writes it.
    pub fn hm_text(&self) -> (r: String)
        requires
            self.valid(),
        ensures
            r@ == self.hm_text_spec(),
    {
        let mut out = two_digit_chars(self.hour);
        out.push(':');
        push_all(&mut out, &two_digit_chars(self.minute));
        string_of(&out)
    }
}

fn is_leap_year(year: i32) -> (r: bool)
    requires
        MIN_YEAR <= year <= MAX_YEAR,
    ensures
        r == is_leap(year as int),
{
    // Shifting by a multiple of 400 keeps every remainder and makes the
    // value positive.
    let y: u32 = (year as i64 + 400000) as u32;
    assert((y as int) % 4 == (year as int) % 4);
    assert((y as int) % 100 == (year as int) % 100);
    assert((y as int) % 400 == (year as int) % 400);
    (y % 4 == 0 && y % 100 != 0) || y % 400 == 0
}

fn month_length(year: i32, month: u32) -> (r: u32)
    requires
        MIN_YEAR <= year <= MAX_YEAR,
    ensures
        r == days_in_month(year as int, month as int),
        28 <= r <= 31,
{
    if month == 2 {
        if is_leap_year(year) { 29 } else { 28 }
    } else if month == 4 || month == 6 || month == 9 || month == 11 {
        30
    } else {
        31
    }
}

proof fn lemma_days_before_leap_bound(y: int, m: int)
    requires
        1 <= m <= 12,
    ensures
        0 <= days_before_month(y, m),
        days_before_month(y, m) + days_in_month(y, m) <= 366,
{
    reveal_with_fuel(days_before_month, 13);
}

fn two_digit_chars(n: u32) -> (r: Vec<char>)
    requires
        n < 100,
    ensures
        r@ == two_digits(n as int),
{
    let mut v: Vec<char> = Vec::new();
    v.push(((48 + n / 10) as u8) as char);
    v.push(((48 + n % 10) as u8) as char);
    assert(v@ =~= two_digits(n as int));
    v
}

fn year_chars(year: i32) -> (r: Vec<char>)
    requires
        MIN_YEAR <= year <= MAX_YEAR,
    ensures
        r@ == year_text(year as int),
{
    if 0 <= year && year <= 9999 {
        padded_decimal(year as u64, 4)
    } else if year < 0 {
        let mut v: Vec<char> = Vec::new();
        v.push('-');
        let digits = padded_decimal((-(year as i64)) as u64, 4);
        push_all(&mut v, &digits);
        assert(v@ =~= seq!['-'] + digits@);
        v
    } else {
        let mut v: Vec<char> = Vec::new();
        v.push('+');
        let digits = padded_decimal(year as u64, 4);
        push_all(&mut v, &digits);
        assert(v@ =~= seq!['+'] + digits@);
        v
    }
}

/// Whether `a` is an earlier date than `b`.
pub open spec fn date_before(a: LocalDate, b: LocalDate) -> bool {
    ||| a.year < b.year
    ||| a.year == b.year && a.month < b.month
    ||| a.year == b.year && a.month == b.month && a.day < b.day
}

proof fn lemma_days_before_grows(y: int, m1: int, m2: int)
    requires
        1 <= m1 < m2 <= 12,
    ensures
        days_before_month(y, m1) + days_in_month(y, m1) <= days_before_month(y, m2),
    decreases m2 - m1,
{
    if m2 > m1 + 1 {
        lemma_days_before_grows(y, m1, m2 - 1);
        assert(days_before_month(y, m2) == days_before_month(y, m2 - 1) + days_in_month(y, m2 - 1));
    }
}

/// The date index orders days as the calendar does: an earlier date has a
/// smaller key, so each day's entries form one contiguous range of keys.
pub proof fn lemma_index_key_order(a: LocalDate, b: LocalDate)
    requires
        a.valid(),
        b.valid(),
        date_before(a, b),
    ensures
        a.index_key_spec() < b.index_key_spec(),
{
    lemma_days_before_leap_bound(a.year as int, a.month as int);
    lemma_days_before_leap_bound(b.year as int, b.month as int);
    if a.year == b.year && a.month < b.month {
        lemma_days_before_grows(a.year as int, a.month as int, b.month as int);
    }
}

/// Two dates share a key of the date index only when they are the same
/// day.
pub proof fn lemma_index_key_injective(a: LocalDate, b: LocalDate)
    requires
        a.valid(),
        b.valid(),
        a.index_key_spec() == b.index_key_spec(),
    ensures
        a == b,
{
    if date_before(a, b) {
        lemma_index_key_order(a, b);
    } else if date_before(b, a) {
        lemma_index_key_order(b, a);
    }
}

/// Days from 1 January of year 0 to 1 January of year `y` in the proleptic
/// Gregorian calendar (negative before year 0).
pub open spec fn days_before_year(y: int) -> int {
    365 * y + (y + 3) / 4 - (y + 99) / 100 + (y + 399) / 400
}

/// Days from 1970-01-01 to the date.
pub open spec fn epoch_day(d: LocalDate) -> int {
    days_before_year(d.year as int) - days_before_year(1970) + d.ordinal_spec() - 1
}

/// Seconds from 1970-01-01 00:00:00 to the date and time, on the same
/// wall clock.
pub open spec fn civil_seconds(d: LocalDate, t: LocalTime) -> int {
    epoch_day(d) * 86400 + t.hour * 3600 + t.minute * 60 + t.second
}

/// The instants whose local date and time chrono can always give:
/// within 8 * 10^15 ms (about 253,000 years) of the epoch.
pub const LOCAL_RANGE_MS: i64 = 8_000_000_000_000_000;

/// Whether a date and time are the wall-clock reading, in some time zone
/// (an offset of less than a day from UTC), of the instant `ms`
/// milliseconds after the epoch.
pub open spec fn local_reading_of(d: LocalDate, t: LocalTime, ms: i64) -> bool {
    &&& d.valid()
    &&& t.valid()
    &&& -86400 < civil_seconds(d, t) - (ms as int) / 1000 < 86400
}

/// Wraps `chrono::Local.timestamp_millis_opt(ms).single()` and splits the
/// local date-time into date and time of day. chrono converts the instant
/// to UTC (seconds by Euclidean division) and adds the machine's offset,
/// which is less than a day; so the reading is that of the instant in
/// some time zone. Which offset applies depends on the machine and is not
/// stated. It gives nothing only for instants outside chrono's range.
#[verifier::external_body]
pub(crate) fn local_date_time(ms: i64) -> (r: Option<(LocalDate, LocalTime)>)
    ensures
        r matches Some((d, t)) ==> local_reading_of(d, t, ms),
        -LOCAL_RANGE_MS <= ms <= LOCAL_RANGE_MS ==> r is Some,
{
    chrono::Local.timestamp_millis_opt(ms).single().map(|dt| (
        LocalDate { year: dt.year(), month: dt.month(), day: dt.day() },
        LocalTime { hour: dt.hour(), minute: dt.minute(), second: dt.second() },
    ))
}

/// Wraps `chrono::Local::now()`, split into date and time of day. It
/// depends on the clock and the time zone; only that it is a real date of
/// chrono's range and a real time of day is stated.
#[verifier::external_body]
pub(crate) fn local_now() -> (r: (LocalDate, LocalTime))
    ensures
        r.0.valid(),
        r.1.valid(),
{
    let dt = chrono::Local::now();
    (
        LocalDate { year: dt.year(), month: dt.month(), day: dt.day() },
        LocalTime { hour: dt.hour(), minute: dt.minute(), second: dt.second() },
    )
}

/// Name for what `chrono::NaiveDate::parse_from_str(s, "%Y-%m-%d")`
/// gives: the year, month and day, or the text of the parse error.
pub uninterp spec fn ymd_of_text(s: Seq<char>) -> core::result::Result<(int, int, int), Seq<char>>;

/// Wraps `chrono::NaiveDate::parse_from_str(s, "%Y-%m-%d")`, split into
/// year, month and day, with the error's `Display` text; the outcome is
/// named [`ymd_of_text`]. A `NaiveDate` is always a real date of chrono's
/// range (years -262143 to 262142), which lies within [`MIN_YEAR`] and
/// [`MAX_YEAR`].
#[verifier::external_body]
fn parse_ymd(s: &str) -> (r: core::result::Result<(i32, u32, u32), String>)
    ensures
        r matches Ok((y, m, d)) ==> (ymd_of_text(s@) matches Ok(t) && t == (y as int, m as int, d as int))
            && (LocalDate { year: y, month: m, day: d }).valid(),
        r matches Err(e) ==> (ymd_of_text(s@) matches Err(t) && t == e@),
{
    chrono::NaiveDate::parse_from_str(s, "%Y-%m-%d").map(|d| (d.year(), d.month(), d.day())).map_err(|e| e.to_string())
}

/// The date a `YYYY-MM-DD` text names, as chrono reads it, or
/// `invalid date: ` and chrono's reason.
pub fn parse_local_date(s: &str) -> (r: core::result::Result<LocalDate, String>)
    ensures
        match ymd_of_text(s@) {
            Ok((y, m, d)) => r matches Ok(date) && date.valid()
                && date.year == y && date.month == m && date.day == d,
            Err(t) => r matches Err(e) && e@ == "invalid date: "@ + t,
        },
{
    match parse_ymd(s) {
        Ok((y, m, d)) => match LocalDate::from_ymd(y, m, d) {
            Some(date) => Ok(date),
            None => Err("invalid date".to_owned()),
        },
        Err(t) => {
            let mut out: Vec<char> = Vec::new();
            push_str(&mut out, "invalid date: ");
            push_str(&mut out, t.as_str());
            Err(string_of(&out))
        },
    }
}

/// Today's date on the local wall clock.
pub fn local_today() -> (r: LocalDate)
    ensures
        r.valid(),
{
    local_now().0
}

/// Wraps `chrono::Utc::now().timestamp_millis()`: the current time in
/// milliseconds since the Unix epoch. It depends on the clock; nothing is
/// promised of it.
#[verifier::external_body]
pub(crate) fn utc_now_millis() -> i64 {
    chrono::Utc::now().timestamp_millis()
}

} // verus!
