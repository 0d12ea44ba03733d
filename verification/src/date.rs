//! Calendar dates and points in time.
//!
//! A date is a year, a month and a day of the proleptic Gregorian calendar. The
//! calendar itself comes from `chrono`; what is asked of it is stated here.

use crate::number::{decimal, digit_char, lemma_four_digits, lemma_two_digits, padded};
use crate::text::{all_digits, is_digit};
use chrono::{Datelike, Timelike};
use vstd::prelude::*;

verus! {

/// A day of the calendar.
#[derive(Clone, Copy, Debug, PartialEq, Eq, Structural)]
pub struct CalendarDate {
    pub year: i32,
    pub month: u32,
    pub day: u32,
}

/// A point in time, in UTC.
#[derive(Clone, Copy, Debug, PartialEq, Eq, Structural)]
pub struct Timestamp {
    pub date: CalendarDate,
    pub hour: u32,
    pub minute: u32,
    pub second: u32,
    /// Above 999999999 only within a leap second.
    pub nanosecond: u32,
}

/// The first year that a date can have.
pub const MIN_YEAR: i32 = -262143;

/// The last year that a date can have.
pub const MAX_YEAR: i32 = 262142;

/// A leap year.
pub open spec fn is_leap(y: int) -> bool {
    y % 4 == 0 && (y % 100 != 0 || y % 400 == 0)
}

/// How many days a month has.
pub open spec fn month_days(y: int, m: int) -> int {
    if m == 2 {
        if is_leap(y) {
            29
        } else {
            28
        }
    } else if m == 4 || m == 6 || m == 9 || m == 11 {
        30
    } else {
        31
    }
}

/// The year, month and day name a day of the calendar.
pub open spec fn valid_ymd(y: int, m: int, d: int) -> bool {
    MIN_YEAR <= y <= MAX_YEAR && 1 <= m <= 12 && 1 <= d <= month_days(y, m)
}

/// Days from the first day of year 1 up to the first day of the given year.
pub open spec fn days_before_year(y: int) -> int {
    365 * (y - 1) + (y - 1) / 4 - (y - 1) / 100 + (y - 1) / 400
}

/// Days of the year before the first of the month.
pub open spec fn days_before_month(y: int, m: int) -> int
    decreases m,
{
    if m <= 1 {
        0
    } else {
        days_before_month(y, m - 1) + month_days(y, m - 1)
    }
}

impl CalendarDate {
    /// A day that exists.
    pub open spec fn wf(self) -> bool {
        valid_ymd(self.year as int, self.month as int, self.day as int)
    }

    /// The number of the day, where the first day of year 1 is day 1.
    pub open spec fn day_number(self) -> int {
        days_before_year(self.year as int) + days_before_month(self.year as int, self.month as int)
            + self.day
    }

    /// A number that orders days.
    pub open spec fn spec_key(self) -> int {
        self.year * 10000 + self.month * 100 + self.day
    }

    /// A number that orders days: later days have larger numbers.
    pub fn key(&self) -> (res: i64)
        ensures
            res == self.spec_key(),
    {
        self.year as i64 * 10000 + self.month as i64 * 100 + self.day as i64
    }

    /// The day with this year, month and day, if the calendar has it.
    pub fn from_ymd_opt(year: i32, month: u32, day: u32) -> (res: Option<CalendarDate>)
        ensures
            res == if valid_ymd(year as int, month as int, day as int) {
                Some(CalendarDate { year, month, day })
            } else {
                None
            },
    {
        if ymd_exists(year, month, day) {
            Some(CalendarDate { year, month, day })
        } else {
            None
        }
    }

    /// Midnight at the start of this day, plus hours and minutes.
    pub fn at(&self, hour: u32, minute: u32) -> (res: Timestamp)
        requires
            self.wf(),
            hour < 24,
            minute < 60,
        ensures
            res == (Timestamp { date: *self, hour, minute, second: 0, nanosecond: 0 }),
            res.wf(),
    {
        Timestamp { date: *self, hour, minute, second: 0, nanosecond: 0 }
    }
}

impl Timestamp {
    /// A point in time that exists.
    pub open spec fn wf(self) -> bool {
        &&& self.date.wf()
        &&& self.hour < 24
        &&& self.minute < 60
        &&& self.second < 60
        &&& self.nanosecond < 2_000_000_000
        &&& self.nanosecond >= 1_000_000_000 ==> self.second == 59
    }
}

/// Calls `chrono::NaiveDate::from_ymd_opt`, which gives a date exactly for the
/// days of the Gregorian calendar in its years.
#[verifier::external_body]
fn ymd_exists(year: i32, month: u32, day: u32) -> (res: bool)
    ensures
        res == valid_ymd(year as int, month as int, day as int),
{
    chrono::NaiveDate::from_ymd_opt(year, month, day).is_some()
}

/// Calls `chrono::NaiveDate - chrono::Duration::days(days)`. It gives the day
/// that many days earlier. It panics where that day lies outside its years, so
/// such days are left out.
#[verifier::external_body]
fn sub_days(date: CalendarDate, days: i64) -> (res: CalendarDate)
    requires
        date.wf(),
        days_before_year(MIN_YEAR as int) < date.day_number() - days,
        date.day_number() - days <= days_before_year(MAX_YEAR + 1),
    ensures
        res.wf(),
        res.day_number() == date.day_number() - days,
{
    let d = chrono::NaiveDate::from_ymd_opt(date.year, date.month, date.day).unwrap();
    let e = d - chrono::Duration::days(days);
    CalendarDate { year: e.year(), month: e.month(), day: e.day() }
}

/// Calls `chrono::NaiveDate::signed_duration_since` and `num_days`: the days from
/// `start` to `end`.
#[verifier::external_body]
fn days_between(end: CalendarDate, start: CalendarDate) -> (res: i64)
    requires
        end.wf(),
        start.wf(),
    ensures
        res == end.day_number() - start.day_number(),
{
    let e = chrono::NaiveDate::from_ymd_opt(end.year, end.month, end.day).unwrap();
    let s = chrono::NaiveDate::from_ymd_opt(start.year, start.month, start.day).unwrap();
    e.signed_duration_since(s).num_days()
}

/// Days since the last Monday.
pub open spec fn weekday_of(date: CalendarDate) -> int {
    (date.day_number() - 1) % 7
}

/// Calls `chrono::NaiveDate::weekday` and `num_days_from_monday`. The first day of
/// year 1 is a Monday.
#[verifier::external_body]
pub(crate) fn days_from_monday(date: CalendarDate) -> (res: u32)
    requires
        date.wf(),
    ensures
        res == weekday_of(date),
{
    let d = chrono::NaiveDate::from_ymd_opt(date.year, date.month, date.day).unwrap();
    d.weekday().num_days_from_monday()
}

/// The value of a digit.
pub open spec fn digit_value(c: char) -> int {
    c as int - '0' as int
}

/// The year of eight digits `YYYYMMDD`.
pub open spec fn compact_year(s: Seq<char>) -> int {
    digit_value(s[0]) * 1000 + digit_value(s[1]) * 100 + digit_value(s[2]) * 10 + digit_value(s[3])
}

/// The month of eight digits `YYYYMMDD`.
pub open spec fn compact_month(s: Seq<char>) -> int {
    digit_value(s[4]) * 10 + digit_value(s[5])
}

/// The day of eight digits `YYYYMMDD`.
pub open spec fn compact_day(s: Seq<char>) -> int {
    digit_value(s[6]) * 10 + digit_value(s[7])
}

/// The day that eight digits `YYYYMMDD` name, if there is one.
pub open spec fn compact_value(s: Seq<char>) -> Option<CalendarDate> {
    if s.len() == 8 && all_digits(s) && valid_ymd(compact_year(s), compact_month(s), compact_day(s)) {
        Some(
            CalendarDate {
                year: compact_year(s) as i32,
                month: compact_month(s) as u32,
                day: compact_day(s) as u32,
            },
        )
    } else {
        None
    }
}

/// Calls `chrono::NaiveDate::parse_from_str` on eight digits with the format
/// `%Y%m%d`. Four digits are the year, two the month and two the day, and the
/// result is a date exactly where the calendar has that day.
#[verifier::external_body]
fn parse_with(s: &str, fmt: &str) -> (res: Option<CalendarDate>)
    requires
        fmt@ == "%Y%m%d"@,
        s@.len() == 8,
        all_digits(s@),
    ensures
        res == compact_value(s@),
{
    let date = chrono::NaiveDate::parse_from_str(s, fmt).ok()?;
    Some(CalendarDate { year: date.year(), month: date.month(), day: date.day() })
}

/// The day that the eight digits name, if the calendar has it.
pub fn parse_compact(s: &str) -> (res: Option<CalendarDate>)
    requires
        s@.len() == 8,
        all_digits(s@),
    ensures
        res == compact_value(s@),
        res matches Some(d) ==> d.wf(),
{
    parse_with(s, "%Y%m%d")
}

/// The full English name of a month.
pub open spec fn month_name(m: int) -> Seq<char> {
    if m == 1 {
        "January"@
    } else if m == 2 {
        "February"@
    } else if m == 3 {
        "March"@
    } else if m == 4 {
        "April"@
    } else if m == 5 {
        "May"@
    } else if m == 6 {
        "June"@
    } else if m == 7 {
        "July"@
    } else if m == 8 {
        "August"@
    } else if m == 9 {
        "September"@
    } else if m == 10 {
        "October"@
    } else if m == 11 {
        "November"@
    } else {
        "December"@
    }
}

/// The first three letters of the name of a month.
pub open spec fn month_abbreviation(m: int) -> Seq<char> {
    month_name(m).take(3)
}

/// A year: four digits, with a sign outside the years 0 to 9999.
pub open spec fn year_text(y: int) -> Seq<char> {
    if 0 <= y <= 9999 {
        padded(y as nat, 4)
    } else if y > 9999 {
        seq!['+'] + padded(y as nat, 4)
    } else {
        seq!['-'] + padded((-y) as nat, 4)
    }
}

/// `20260527`.
pub open spec fn compact_date(d: CalendarDate) -> Seq<char> {
    year_text(d.year as int) + padded(d.month as nat, 2) + padded(d.day as nat, 2)
}

/// `05-27`.
pub open spec fn month_day(d: CalendarDate) -> Seq<char> {
    padded(d.month as nat, 2) + seq!['-'] + padded(d.day as nat, 2)
}

/// `May 27, 2026`.
pub open spec fn long_date(d: CalendarDate) -> Seq<char> {
    month_name(d.month as int) + seq![' '] + decimal(d.day as nat) + seq![',', ' '] + year_text(
        d.year as int,
    )
}

/// `Jan 7`.
pub open spec fn short_date(d: CalendarDate) -> Seq<char> {
    month_abbreviation(d.month as int) + seq![' '] + decimal(d.day as nat)
}

/// `May 2026`.
pub open spec fn month_title(d: CalendarDate) -> Seq<char> {
    month_name(d.month as int) + seq![' '] + year_text(d.year as int)
}

/// `Jan 7, 2026 · 04:30 UTC`.
pub open spec fn build_time(t: Timestamp) -> Seq<char> {
    short_date(t.date) + seq![',', ' '] + year_text(t.date.year as int) + " · "@ + padded(
        t.hour as nat,
        2,
    ) + seq![':'] + padded(t.minute as nat, 2) + " UTC"@
}

/// Calls `chrono::NaiveDate::format` with one of the formats that this library
/// uses. Month names are English; `%-d` has no padding; the year has four digits,
/// and a sign where it lies outside 0 to 9999.
#[verifier::external_body]
fn format_date(date: CalendarDate, fmt: &str) -> (res: String)
    requires
        date.wf(),
        fmt@ == "%Y%m%d"@ || fmt@ == "%m-%d"@ || fmt@ == "%B %-d, %Y"@ || fmt@ == "%b %-d"@ || fmt@
            == "%B %Y"@,
    ensures
        fmt@ == "%Y%m%d"@ ==> res@ == compact_date(date),
        fmt@ == "%m-%d"@ ==> res@ == month_day(date),
        fmt@ == "%B %-d, %Y"@ ==> res@ == long_date(date),
        fmt@ == "%b %-d"@ ==> res@ == short_date(date),
        fmt@ == "%B %Y"@ ==> res@ == month_title(date),
{
    let d = chrono::NaiveDate::from_ymd_opt(date.year, date.month, date.day).unwrap();
    d.format(fmt).to_string()
}

/// Calls `chrono::DateTime::<Utc>::format` with one of the formats that this
/// library uses. Hours and minutes have two digits.
#[verifier::external_body]
fn format_timestamp(time: Timestamp, fmt: &str) -> (res: String)
    requires
        time.wf(),
        fmt@ == "%B %-d, %Y"@ || fmt@ == "%b %-d, %Y · %H:%M UTC"@,
    ensures
        fmt@ == "%B %-d, %Y"@ ==> res@ == long_date(time.date),
        fmt@ == "%b %-d, %Y · %H:%M UTC"@ ==> res@ == build_time(time),
{
    let d = chrono::NaiveDate::from_ymd_opt(time.date.year, time.date.month, time.date.day).unwrap();
    let t = d.and_hms_nano_opt(time.hour, time.minute, time.second, time.nanosecond).unwrap();
    t.and_utc().format(fmt).to_string()
}

/// What an RFC 3339 text stands for, in UTC; nothing where it is not one.
pub uninterp spec fn rfc3339_value(s: Seq<char>) -> Option<Timestamp>;

/// Calls `chrono::DateTime::parse_from_rfc3339` and `with_timezone` for UTC. The
/// result depends on the text alone and is a point in time that exists.
#[verifier::external_body]
pub(crate) fn parse_rfc3339(s: &str) -> (res: Option<Timestamp>)
    ensures
        res == rfc3339_value(s@),
        res matches Some(t) ==> t.wf(),
{
    let t = chrono::DateTime::parse_from_rfc3339(s).ok()?.with_timezone(&chrono::Utc);
    Some(Timestamp {
        date: CalendarDate { year: t.year(), month: t.month(), day: t.day() },
        hour: t.hour(),
        minute: t.minute(),
        second: t.second(),
        nanosecond: t.nanosecond(),
    })
}

impl CalendarDate {
    /// `20260527`.
    pub fn compact(&self) -> (res: String)
        requires
            self.wf(),
        ensures
            res@ == compact_date(*self),
    {
        format_date(*self, "%Y%m%d")
    }

    /// `05-27`.
    pub fn month_day(&self) -> (res: String)
        requires
            self.wf(),
        ensures
            res@ == month_day(*self),
    {
        format_date(*self, "%m-%d")
    }

    /// `May 27, 2026`.
    pub fn long(&self) -> (res: String)
        requires
            self.wf(),
        ensures
            res@ == long_date(*self),
    {
        format_date(*self, "%B %-d, %Y")
    }

    /// `Jan 7`.
    pub fn short(&self) -> (res: String)
        requires
            self.wf(),
        ensures
            res@ == short_date(*self),
    {
        format_date(*self, "%b %-d")
    }

    /// `May 2026`.
    pub fn month_title(&self) -> (res: String)
        requires
            self.wf(),
        ensures
            res@ == month_title(*self),
    {
        format_date(*self, "%B %Y")
    }
}

impl Timestamp {
    /// The day, as `May 27, 2026`.
    pub fn long_date(&self) -> (res: String)
        requires
            self.wf(),
        ensures
            res@ == long_date(self.date),
    {
        format_timestamp(*self, "%B %-d, %Y")
    }

    /// `Jan 7, 2026 · 04:30 UTC`.
    pub fn build_time(&self) -> (res: String)
        requires
            self.wf(),
        ensures
            res@ == build_time(*self),
    {
        format_timestamp(*self, "%b %-d, %Y · %H:%M UTC")
    }
}

proof fn lemma_year_length(y: int)
    ensures
        days_before_year(y + 1) == days_before_year(y) + if is_leap(y) {
            366int
        } else {
            365int
        },
{
}

proof fn lemma_years_apart(a: int, b: int)
    requires
        a < b,
    ensures
        days_before_year(a) + if is_leap(a) {
            366int
        } else {
            365int
        } <= days_before_year(b),
    decreases b - a,
{
    if a + 1 < b {
        lemma_years_apart(a, b - 1);
        lemma_year_length(b - 1);
    } else {
        lemma_year_length(a);
    }
}

proof fn lemma_months_apart(y: int, a: int, b: int)
    requires
        1 <= a < b <= 13,
    ensures
        days_before_month(y, a) + month_days(y, a) <= days_before_month(y, b),
    decreases b - a,
{
    if a + 1 < b {
        lemma_months_apart(y, a, b - 1);
    }
}

proof fn lemma_year_days(y: int)
    ensures
        days_before_month(y, 13) == if is_leap(y) {
            366int
        } else {
            365int
        },
{
    reveal_with_fuel(days_before_month, 14);
}

proof fn lemma_earlier(a: CalendarDate, b: CalendarDate)
    requires
        a.wf(),
        b.wf(),
        a.spec_key() < b.spec_key(),
    ensures
        a.day_number() < b.day_number(),
{
    let (y, m) = (a.year as int, a.month as int);
    if a.year < b.year {
        lemma_years_apart(y, b.year as int);
        lemma_year_days(y);
        lemma_months_apart(y, m, 13);
        lemma_month_nonnegative(b.year as int, b.month as int);
    } else if a.month < b.month {
        lemma_months_apart(y, m, b.month as int);
    }
}

proof fn lemma_month_nonnegative(y: int, m: int)
    ensures
        days_before_month(y, m) >= 0,
    decreases m,
{
    if m > 1 {
        lemma_month_nonnegative(y, m - 1);
    }
}

/// No day comes after the last day of the last year.
pub proof fn lemma_day_number_bound(d: CalendarDate)
    requires
        d.wf(),
    ensures
        days_before_year(MIN_YEAR as int) < d.day_number() <= days_before_year(MAX_YEAR + 1),
{
    let y = d.year as int;
    lemma_year_length(y);
    lemma_year_days(y);
    lemma_months_apart(y, d.month as int, 13);
    lemma_month_nonnegative(y, d.month as int);
    if y < MAX_YEAR {
        lemma_years_apart(y + 1, MAX_YEAR + 1);
    }
    if y > MIN_YEAR {
        lemma_years_apart(MIN_YEAR as int, y);
    }
}

/// Comparing the keys of two days is comparing the days, and a day's number
/// belongs to no other day.
pub proof fn law_key_orders_days(a: CalendarDate, b: CalendarDate)
    requires
        a.wf(),
        b.wf(),
    ensures
        a.spec_key() < b.spec_key() <==> a.day_number() < b.day_number(),
        a.spec_key() == b.spec_key() <==> a == b,
        a.day_number() == b.day_number() <==> a == b,
{
    if a.spec_key() < b.spec_key() {
        lemma_earlier(a, b);
    } else if b.spec_key() < a.spec_key() {
        lemma_earlier(b, a);
    } else {
        assert(a.year == b.year && a.month == b.month && a.day == b.day);
    }
}

/// The eight digits of a day read back as that day.
pub proof fn law_compact_round_trip(d: CalendarDate)
    requires
        d.wf(),
        0 <= d.year <= 9999,
    ensures
        compact_date(d).len() == 8,
        all_digits(compact_date(d)),
        compact_value(compact_date(d)) == Some(d),
{
    lemma_four_digits(d.year as nat);
    lemma_two_digits(d.month as nat);
    lemma_two_digits(d.day as nat);
    let s = compact_date(d);
    let y = d.year as int;
    let m = d.month as int;
    let n = d.day as int;
    lemma_digits_sum(y);
    lemma_digits_sum(m);
    lemma_digits_sum(n);
    assert(s.len() == 8);
    assert(s[0] == digit_char(y / 1000) && s[1] == digit_char((y / 100) % 10));
    assert(s[2] == digit_char((y / 10) % 10) && s[3] == digit_char(y % 10));
    assert(s[4] == digit_char(m / 10) && s[5] == digit_char(m % 10));
    assert(s[6] == digit_char(n / 10) && s[7] == digit_char(n % 10));
    assert(digit_value(s[0]) == y / 1000 && digit_value(s[1]) == (y / 100) % 10);
    assert(digit_value(s[2]) == (y / 10) % 10 && digit_value(s[3]) == y % 10);
    assert(digit_value(s[4]) == m / 10 && digit_value(s[5]) == m % 10);
    assert(digit_value(s[6]) == n / 10 && digit_value(s[7]) == n % 10);
    assert(compact_year(s) == y && compact_month(s) == m && compact_day(s) == n);
    assert forall|i: int| 0 <= i < s.len() implies is_digit(#[trigger] s[i]) by {
        assert(i == 0 || i == 1 || i == 2 || i == 3 || i == 4 || i == 5 || i == 6 || i == 7);
    }
}

proof fn lemma_digits_sum(n: int)
    requires
        0 <= n <= 9999,
    ensures
        n == (n / 1000) * 1000 + ((n / 100) % 10) * 100 + ((n / 10) % 10) * 10 + n % 10,
        0 <= n / 1000 <= 9,
        n < 100 ==> n == (n / 10) * 10 + n % 10 && 0 <= n / 10 <= 9,
{
    assert(n == (n / 10) * 10 + n % 10);
    assert(n / 100 == (n / 10) / 10);
    assert(n / 1000 == (n / 100) / 10);
}

/// What eight digits stand for is a day that writes back as these digits.
pub proof fn law_compact_reads_itself(s: Seq<char>)
    requires
        compact_value(s) is Some,
    ensures
        compact_date(compact_value(s).unwrap()) == s,
{
    let d = compact_value(s).unwrap();
    assert(is_digit(s[0]) && is_digit(s[1]) && is_digit(s[2]) && is_digit(s[3]));
    assert(is_digit(s[4]) && is_digit(s[5]) && is_digit(s[6]) && is_digit(s[7]));
    lemma_digits_apart(digit_value(s[0]), digit_value(s[1]), digit_value(s[2]), digit_value(s[3]));
    lemma_digits_apart(0, 0, digit_value(s[4]), digit_value(s[5]));
    lemma_digits_apart(0, 0, digit_value(s[6]), digit_value(s[7]));
    lemma_four_digits(d.year as nat);
    lemma_two_digits(d.month as nat);
    lemma_two_digits(d.day as nat);
    let t = compact_date(d);
    assert(t[0] == s[0] && t[1] == s[1] && t[2] == s[2] && t[3] == s[3]);
    assert(t[4] == s[4] && t[5] == s[5] && t[6] == s[6] && t[7] == s[7]);
    assert(t =~= s);
}

proof fn lemma_digits_apart(a: int, b: int, c: int, d: int)
    requires
        0 <= a <= 9,
        0 <= b <= 9,
        0 <= c <= 9,
        0 <= d <= 9,
    ensures
        ({
            let n = a * 1000 + b * 100 + c * 10 + d;
            n / 1000 == a && (n / 100) % 10 == b && (n / 10) % 10 == c && n % 10 == d
        }),
        (c * 10 + d) / 10 == c,
{
    let n = a * 1000 + b * 100 + c * 10 + d;
    let tens = a * 100 + b * 10 + c;
    let hundreds = a * 10 + b;
    assert(n == tens * 10 + d);
    assert(n / 10 == tens && n % 10 == d);
    assert(tens == hundreds * 10 + c);
    assert(tens / 10 == hundreds && tens % 10 == c);
    assert(n == hundreds * 100 + (c * 10 + d));
    assert(n / 100 == hundreds);
    assert(hundreds / 10 == a && hundreds % 10 == b);
    assert(n == a * 1000 + (b * 100 + c * 10 + d));
    assert(0 <= b * 100 + c * 10 + d < 1000);
    assert(n / 1000 == a);
}

/// The number of days in the month of `date`. In the very last month that a date
/// can have there is no next month to count to: there it is the number of days
/// before `date`.
pub fn days_in_month(date: CalendarDate) -> (res: u32)
    requires
        date.wf(),
    ensures
        date.year < MAX_YEAR || date.month < 12 ==> res == month_days(
            date.year as int,
            date.month as int,
        ),
        date.year == MAX_YEAR && date.month == 12 ==> res == date.day - 1,
{
    let next: Option<CalendarDate> = if date.month == 12 {
        CalendarDate::from_ymd_opt(date.year + 1, 1, 1)
    } else {
        CalendarDate::from_ymd_opt(date.year, date.month + 1, 1)
    };
    let end: CalendarDate = match next {
        Some(d) => d,
        None => date,
    };
    let start: CalendarDate = match CalendarDate::from_ymd_opt(date.year, date.month, 1) {
        Some(d) => d,
        None => date,
    };
    proof {
        lemma_year_length(date.year as int);
        lemma_year_days(date.year as int);
        assert(days_before_month(date.year + 1, 1) == 0);
        assert(days_before_month(date.year as int, date.month + 1) == days_before_month(
            date.year as int,
            date.month as int,
        ) + month_days(date.year as int, date.month as int));
    }
    let days: i64 = days_between(end, start);
    days as u32
}

/// The first day of the month of `date`.
pub fn first_of_month(date: CalendarDate) -> (res: CalendarDate)
    requires
        date.wf(),
    ensures
        res == (CalendarDate { year: date.year, month: date.month, day: 1 }),
        res.wf(),
{
    match CalendarDate::from_ymd_opt(date.year, date.month, 1) {
        Some(d) => d,
        None => date,
    }
}

/// The first day of the month before; the same day where there is none.
pub open spec fn month_before(date: CalendarDate) -> CalendarDate {
    if date.month > 1 {
        CalendarDate { year: date.year, month: (date.month - 1) as u32, day: 1 }
    } else if date.year > MIN_YEAR {
        CalendarDate { year: (date.year - 1) as i32, month: 12, day: 1 }
    } else {
        date
    }
}

/// The first day of the month after; the same day where there is none.
pub open spec fn month_after(date: CalendarDate) -> CalendarDate {
    if date.month < 12 {
        CalendarDate { year: date.year, month: (date.month + 1) as u32, day: 1 }
    } else if date.year < MAX_YEAR {
        CalendarDate { year: (date.year + 1) as i32, month: 1, day: 1 }
    } else {
        date
    }
}

/// The first day of the previous month.
pub fn previous_month(date: CalendarDate) -> (res: CalendarDate)
    requires
        date.wf(),
    ensures
        res == month_before(date),
        res.wf(),
{
    let found: Option<CalendarDate> = if date.month == 1 {
        CalendarDate::from_ymd_opt(date.year - 1, 12, 1)
    } else {
        CalendarDate::from_ymd_opt(date.year, date.month - 1, 1)
    };
    match found {
        Some(d) => d,
        None => date,
    }
}

/// The first day of the next month.
pub fn next_month(date: CalendarDate) -> (res: CalendarDate)
    requires
        date.wf(),
    ensures
        res == month_after(date),
        res.wf(),
{
    let found: Option<CalendarDate> = if date.month == 12 {
        CalendarDate::from_ymd_opt(date.year + 1, 1, 1)
    } else {
        CalendarDate::from_ymd_opt(date.year, date.month + 1, 1)
    };
    match found {
        Some(d) => d,
        None => date,
    }
}

/// Going a month back and a month forward leads to the first of the month one
/// started from, and so does going forward and back, but for the first and the
/// last month of all.
pub proof fn law_month_steps(date: CalendarDate)
    requires
        date.wf(),
    ensures
        date.month > 1 || date.year > MIN_YEAR ==> month_after(month_before(date))
            == (CalendarDate { year: date.year, month: date.month, day: 1 }),
        date.month < 12 || date.year < MAX_YEAR ==> month_before(month_after(date))
            == (CalendarDate { year: date.year, month: date.month, day: 1 }),
{
}

proof fn lemma_year_of(n: int, from: int) -> (y: int)
    requires
        MIN_YEAR <= from <= MAX_YEAR,
        days_before_year(from) < n <= days_before_year(MAX_YEAR + 1),
    ensures
        from <= y <= MAX_YEAR,
        days_before_year(y) < n <= days_before_year(y + 1),
    decreases MAX_YEAR - from,
{
    if n <= days_before_year(from + 1) {
        from
    } else {
        lemma_year_of(n, from + 1)
    }
}

proof fn lemma_month_of(y: int, n: int, from: int) -> (m: int)
    requires
        1 <= from <= 12,
        days_before_month(y, from) < n <= days_before_month(y, 13),
    ensures
        from <= m <= 12,
        days_before_month(y, m) < n <= days_before_month(y, m) + month_days(y, m),
    decreases 13 - from,
{
    if n <= days_before_month(y, from) + month_days(y, from) {
        from
    } else {
        lemma_month_of(y, n, from + 1)
    }
}

/// Every number from the first day of the first year to the last day of the last year
/// is the number of a day.
pub proof fn law_days_without_gaps(n: int)
    requires
        days_before_year(MIN_YEAR as int) < n <= days_before_year(MAX_YEAR + 1),
    ensures
        exists|d: CalendarDate| d.wf() && #[trigger] d.day_number() == n,
{
    let y = lemma_year_of(n, MIN_YEAR as int);
    lemma_year_length(y);
    lemma_year_days(y);
    let m = lemma_month_of(y, n - days_before_year(y), 1);
    let day = n - days_before_year(y) - days_before_month(y, m);
    let d = CalendarDate { year: y as i32, month: m as u32, day: day as u32 };
    assert(d.wf() && d.day_number() == n);
}

/// The day that lies so many days before `date`.
pub open spec fn days_earlier(date: CalendarDate, days: int) -> CalendarDate {
    choose|d: CalendarDate| d.wf() && #[trigger] d.day_number() == date.day_number() - days
}

/// There is a day so many days before `date`.
pub open spec fn has_days_earlier(date: CalendarDate, days: int) -> bool {
    days_before_year(MIN_YEAR as int) < date.day_number() - days <= days_before_year(MAX_YEAR + 1)
}

/// The day that lies so many days before `date`.
pub fn earlier(date: CalendarDate, days: i64) -> (res: CalendarDate)
    requires
        date.wf(),
        has_days_earlier(date, days as int),
    ensures
        res == days_earlier(date, days as int),
        res.wf(),
        res.day_number() == date.day_number() - days,
{
    let res = sub_days(date, days);
    proof {
        law_key_orders_days(res, days_earlier(date, days as int));
    }
    res
}

/// The month before is one month earlier and the month after one month later, both from
/// their first day on; the first and the last month of all have no such neighbour.
pub proof fn law_neighbouring_months(date: CalendarDate)
    requires
        date.wf(),
    ensures
        date.month > 1 || date.year > MIN_YEAR ==> {
            let before = month_before(date);
            &&& before.wf() && before.day == 1
            &&& before.year * 12 + before.month == date.year * 12 + date.month - 1
        },
        date.month < 12 || date.year < MAX_YEAR ==> {
            let after = month_after(date);
            &&& after.wf() && after.day == 1
            &&& after.year * 12 + after.month == date.year * 12 + date.month + 1
        },
        date.month == 1 && date.year == MIN_YEAR ==> month_before(date) == date,
        date.month == 12 && date.year == MAX_YEAR ==> month_after(date) == date,
{
}

/// Days that follow each other are days of the week that follow each other, and a day of
/// the week comes again after seven days.
pub proof fn law_weekdays(a: CalendarDate, b: CalendarDate)
    ensures
        0 <= weekday_of(a) < 7,
        b.day_number() == a.day_number() + 1 ==> weekday_of(b) == if weekday_of(a) == 6 {
            0
        } else {
            weekday_of(a) + 1
        },
        b.day_number() == a.day_number() + 7 ==> weekday_of(b) == weekday_of(a),
{
}

/// The labels of a day give its month by name or in two digits, its day and its year.
pub proof fn law_date_labels(d: CalendarDate)
    ensures
        month_day(d) == padded(d.month as nat, 2) + "-"@ + padded(d.day as nat, 2),
        long_date(d) == month_name(d.month as int) + " "@ + decimal(d.day as nat) + ", "@
            + year_text(d.year as int),
        short_date(d) == month_name(d.month as int).take(3) + " "@ + decimal(d.day as nat),
        month_title(d) == month_name(d.month as int) + " "@ + year_text(d.year as int),
        0 <= d.year <= 9999 ==> year_text(d.year as int) == padded(d.year as nat, 4),
{
    reveal_strlit("-");
    reveal_strlit(" ");
    reveal_strlit(", ");
    assert("-"@ =~= seq!['-']);
    assert(" "@ =~= seq![' ']);
    assert(", "@ =~= seq![',', ' ']);
}

/// The names of the months.
pub proof fn law_month_names()
    ensures
        month_name(1) == "January"@ && month_name(2) == "February"@ && month_name(3) == "March"@,
        month_name(4) == "April"@ && month_name(5) == "May"@ && month_name(6) == "June"@,
        month_name(7) == "July"@ && month_name(8) == "August"@ && month_name(9) == "September"@,
        month_name(10) == "October"@ && month_name(11) == "November"@,
        month_name(12) == "December"@,
{
}

/// The time of a build: its day, its year, and its hour and minute in two digits each.
pub proof fn law_build_time(t: Timestamp)
    ensures
        build_time(t) == short_date(t.date) + ", "@ + year_text(t.date.year as int) + " · "@
            + padded(t.hour as nat, 2) + ":"@ + padded(t.minute as nat, 2) + " UTC"@,
{
    reveal_strlit(", ");
    reveal_strlit(":");
    assert(", "@ =~= seq![',', ' ']);
    assert(":"@ =~= seq![':']);
}

} // verus!
