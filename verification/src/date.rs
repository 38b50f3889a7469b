//! Calendar dates as the service uses them: the proleptic Gregorian calendar
//! over the years that the date library can represent.

use vstd::prelude::*;

use chrono::Datelike;

use crate::text::{append_zero_padded, zero_padded};

verus! {

/// The earliest year a date can have.
pub const MIN_YEAR: i32 = -262143;

/// The latest year a date can have.
pub const MAX_YEAR: i32 = 262142;

/// A calendar date. A `Date` that the library hands out is always valid.
#[derive(Debug, Clone, Copy, PartialEq, Eq, Structural)]
pub struct Date {
    pub year: i32,
    /// 1 to 12.
    pub month: u32,
    /// 1 to the length of the month.
    pub day: u32,
}

/// Leap years of the Gregorian calendar (year 0 is one).
pub open spec fn is_leap(y: int) -> bool {
    (y % 4 == 0 && y % 100 != 0) || y % 400 == 0
}

/// The number of days in month `m` of year `y`.
pub open spec fn days_in_month(y: int, m: int) -> int {
    if m == 2 {
        if is_leap(y) { 29 } else { 28 }
    } else if m == 4 || m == 6 || m == 9 || m == 11 {
        30
    } else {
        31
    }
}

/// Whether year, month and day name a representable date.
pub open spec fn valid_ymd(y: int, m: int, d: int) -> bool {
    &&& MIN_YEAR <= y <= MAX_YEAR
    &&& 1 <= m <= 12
    &&& 1 <= d <= days_in_month(y, m)
}

/// Days from 0000-01-01 to the first day of year `y`.
pub open spec fn days_before_year(y: int) -> int {
    365 * y + (y + 3) / 4 - (y + 99) / 100 + (y + 399) / 400
}

/// Days from the first of the year to the first of month `m`.
pub open spec fn days_before_month(y: int, m: int) -> int {
    let leap_day: int = if m > 2 && is_leap(y) { 1 } else { 0 };
    let common: int = if m <= 1 { 0 }
        else if m == 2 { 31 }
        else if m == 3 { 59 }
        else if m == 4 { 90 }
        else if m == 5 { 120 }
        else if m == 6 { 151 }
        else if m == 7 { 181 }
        else if m == 8 { 212 }
        else if m == 9 { 243 }
        else if m == 10 { 273 }
        else if m == 11 { 304 }
        else { 334 };
    common + leap_day
}

/// The number of the day: days elapsed since 0000-01-01.
pub open spec fn day_number_ymd(y: int, m: int, d: int) -> int {
    days_before_year(y) + days_before_month(y, m) + d - 1
}

impl Date {
    pub open spec fn valid(self) -> bool {
        valid_ymd(self.year as int, self.month as int, self.day as int)
    }

    /// Days elapsed since 0000-01-01.
    pub open spec fn day_number(self) -> int {
        day_number_ymd(self.year as int, self.month as int, self.day as int)
    }

    /// Chronological order: by year, then month, then day.
    pub open spec fn before(self, other: Date) -> bool {
        ||| self.year < other.year
        ||| (self.year == other.year && self.month < other.month)
        ||| (self.year == other.year && self.month == other.month && self.day < other.day)
    }
}

/// A year has 366 days if it is a leap year and 365 otherwise.
pub proof fn lemma_year_length(y: int)
    ensures
        days_before_year(y + 1) - days_before_year(y) == if is_leap(y) { 366int } else { 365int },
{
    lemma_step_4(y);
    lemma_step_100(y);
    lemma_step_400(y);
}

proof fn lemma_step_4(y: int)
    ensures
        (y + 4) / 4 - (y + 3) / 4 == if y % 4 == 0 { 1int } else { 0int },
{
}

proof fn lemma_step_100(y: int)
    ensures
        (y + 100) / 100 - (y + 99) / 100 == if y % 100 == 0 { 1int } else { 0int },
{
}

proof fn lemma_step_400(y: int)
    ensures
        (y + 400) / 400 - (y + 399) / 400 == if y % 400 == 0 { 1int } else { 0int },
{
}


/// The first day of a later year comes no earlier than the first day of the
/// year after an earlier one.
pub proof fn lemma_days_before_year_mono(a: int, b: int)
    requires
        a < b,
    ensures
        days_before_year(a + 1) <= days_before_year(b),
    decreases b - a,
{
    if a + 1 < b {
        lemma_days_before_year_mono(a, b - 1);
        lemma_year_length(b - 1);
    }
}

/// The first of month `m + 1` follows the last day of month `m`.
pub proof fn lemma_month_length(y: int, m: int)
    requires
        1 <= m < 12,
    ensures
        days_before_month(y, m + 1) == days_before_month(y, m) + days_in_month(y, m),
{
}

/// Every day of a year is numbered before the first day of the next year.
pub proof fn lemma_day_within_year(y: int, m: int, d: int)
    requires
        1 <= m <= 12,
        1 <= d <= days_in_month(y, m),
    ensures
        days_before_year(y) <= day_number_ymd(y, m, d) < days_before_year(y + 1),
{
    lemma_year_length(y);
}

/// Day numbers follow the calendar order.
pub proof fn lemma_day_number_order(a: Date, b: Date)
    requires
        a.valid(),
        b.valid(),
        a.before(b),
    ensures
        a.day_number() < b.day_number(),
{
    lemma_day_within_year(a.year as int, a.month as int, a.day as int);
    lemma_day_within_year(b.year as int, b.month as int, b.day as int);
    if a.year < b.year {
        lemma_days_before_year_mono(a.year as int, b.year as int);
    } else if a.month < b.month {
        let y = a.year as int;
        assert(days_before_month(y, a.month as int) + days_in_month(y, a.month as int)
            <= days_before_month(y, b.month as int));
    }
}

/// Two valid dates with the same day number are the same date.
pub proof fn lemma_day_number_injective(a: Date, b: Date)
    requires
        a.valid(),
        b.valid(),
        a.day_number() == b.day_number(),
    ensures
        a == b,
{
    if a.before(b) {
        lemma_day_number_order(a, b);
    } else if b.before(a) {
        lemma_day_number_order(b, a);
    }
}


/// The day number of the earliest representable date.
pub open spec fn first_day_number() -> int {
    day_number_ymd(MIN_YEAR as int, 1, 1)
}

/// The day number of the latest representable date.
pub open spec fn last_day_number() -> int {
    day_number_ymd(MAX_YEAR as int, 12, 31)
}

/// Whether `c` is an ASCII decimal digit.
pub open spec fn is_ascii_digit(c: char) -> bool {
    '0' <= c <= '9'
}

/// The value of the ASCII digits `s[from..to]`.
pub open spec fn digits_value(s: Seq<char>, from: int, to: int) -> int
    decreases to - from,
{
    if to <= from {
        0
    } else {
        digits_value(s, from, to - 1) * 10 + ((s[to - 1] as u32) - ('0' as u32))
    }
}

/// Whether `s` is written exactly `YYYY-MM-DD`: four, two and two ASCII
/// digits separated by hyphens.
pub open spec fn is_canonical_ymd(s: Seq<char>) -> bool {
    &&& s.len() == 10
    &&& s[4] == '-' && s[7] == '-'
    &&& forall|i: int| 0 <= i < 10 && i != 4 && i != 7 ==> is_ascii_digit(#[trigger] s[i])
}

/// Whether `s` is written exactly `YYYY-MM-DD`.
pub fn is_canonical_ymd_text(s: &str) -> (r: bool)
    ensures
        r == is_canonical_ymd(s@),
{
    if s.unicode_len() != 10 {
        return false;
    }
    let mut i: usize = 0;
    while i < 10
        invariant
            s@.len() == 10,
            i <= 10,
            forall|j: int| 0 <= j < i && j != 4 && j != 7 ==> is_ascii_digit(#[trigger] s@[j]),
            i > 4 ==> s@[4] == '-',
            i > 7 ==> s@[7] == '-',
        decreases 10 - i,
    {
        let c = s.get_char(i);
        if i == 4 || i == 7 {
            if c != '-' {
                return false;
            }
        } else if c < '0' || c > '9' {
            proof {
                assert(!is_ascii_digit(s@[i as int]));
            }
            return false;
        }
        i += 1;
    }
    true
}

/// What `chrono::NaiveDate::parse_from_str` gives for a text and the pattern
/// `%Y-%m-%d`.
pub uninterp spec fn chrono_parse_ymd(s: Seq<char>) -> Option<Date>;

/// The date that text written `YYYY-MM-DD` names, if there is one.
pub open spec fn canonical_date(s: Seq<char>) -> Option<Date> {
    let y = digits_value(s, 0, 4);
    let m = digits_value(s, 5, 7);
    let d = digits_value(s, 8, 10);
    if valid_ymd(y, m, d) {
        Some(Date { year: y as i32, month: m as u32, day: d as u32 })
    } else {
        None
    }
}

/// `chrono::NaiveDate::from_ymd_opt`: some date exactly when year, month and
/// day name a day of the proleptic Gregorian calendar within chrono's years.
#[verifier::external_body]
fn chrono_from_ymd(year: i32, month: u32, day: u32) -> (r: Option<Date>)
    ensures
        r == (if valid_ymd(year as int, month as int, day as int) {
            Some(Date { year, month, day })
        } else {
            None
        }),
{
    match chrono::NaiveDate::from_ymd_opt(year, month, day) {
        Some(nd) => Some(Date { year: nd.year(), month: nd.month(), day: nd.day() }),
        None => None,
    }
}

/// `chrono::NaiveDate + chrono::TimeDelta::days(days)`: the date `days` days
/// later (earlier for a negative count). It panics when the result leaves
/// chrono's range, which `requires` rules out.
#[verifier::external_body]
fn chrono_add_days(d: Date, days: i64) -> (r: Date)
    requires
        d.valid(),
        first_day_number() <= d.day_number() + days <= last_day_number(),
    ensures
        r.valid(),
        r.day_number() == d.day_number() + days,
{
    let nd = chrono::NaiveDate::from_ymd_opt(d.year, d.month, d.day).unwrap()
        + chrono::TimeDelta::days(days);
    Date { year: nd.year(), month: nd.month(), day: nd.day() }
}

/// `chrono::NaiveDate - chrono::TimeDelta::days(days)`: the date `days` days
/// earlier. It panics when the result leaves chrono's range, which `requires`
/// rules out.
#[verifier::external_body]
fn chrono_sub_days(d: Date, days: i64) -> (r: Date)
    requires
        d.valid(),
        first_day_number() <= d.day_number() - days <= last_day_number(),
    ensures
        r.valid(),
        r.day_number() == d.day_number() - days,
{
    let nd = chrono::NaiveDate::from_ymd_opt(d.year, d.month, d.day).unwrap()
        - chrono::TimeDelta::days(days);
    Date { year: nd.year(), month: nd.month(), day: nd.day() }
}

/// `chrono::NaiveDate::parse_from_str(s, "%Y-%m-%d")`. What it accepts in
/// general (signs, shorter fields, leading spaces) takes pages to state and is
/// left to the name `chrono_parse_ymd`; what it gives back is always a valid
/// date, and on text written exactly `YYYY-MM-DD` it gives the date those
/// digits name, if there is one.
#[verifier::external_body]
fn chrono_parse_ymd_str(s: &str) -> (r: Option<Date>)
    ensures
        r == chrono_parse_ymd(s@),
        r matches Some(d) ==> d.valid(),
        is_canonical_ymd(s@) ==> r == canonical_date(s@),
{
    match chrono::NaiveDate::parse_from_str(s, "%Y-%m-%d") {
        Ok(nd) => Some(Date { year: nd.year(), month: nd.month(), day: nd.day() }),
        Err(_) => None,
    }
}

/// `chrono::Local::now().date_naive()`: the current local date. It depends on
/// the clock and the time zone, so nothing is stated of it but that it is a
/// valid date.
#[verifier::external_body]
pub fn today() -> (d: Date)
    ensures
        d.valid(),
{
    let nd = chrono::Local::now().date_naive();
    Date { year: nd.year(), month: nd.month(), day: nd.day() }
}

/// Whether `y` is a leap year.
pub fn is_leap_year(y: i32) -> (r: bool)
    ensures
        r == is_leap(y as int),
{
    let y = y as i64;
    let r4 = y.checked_rem_euclid(4).unwrap();
    let r100 = y.checked_rem_euclid(100).unwrap();
    let r400 = y.checked_rem_euclid(400).unwrap();
    (r4 == 0 && r100 != 0) || r400 == 0
}

/// The number of days in month `m` of year `y`.
pub fn month_length(y: i32, m: u32) -> (r: u32)
    requires
        1 <= m <= 12,
    ensures
        r == days_in_month(y as int, m as int),
{
    if m == 2 {
        if is_leap_year(y) { 29 } else { 28 }
    } else if m == 4 || m == 6 || m == 9 || m == 11 {
        30
    } else {
        31
    }
}

fn days_before_month_exec(y: i32, m: u32) -> (r: i64)
    requires
        1 <= m <= 12,
    ensures
        r == days_before_month(y as int, m as int),
{
    let common: i64 = if m <= 1 { 0 }
        else if m == 2 { 31 }
        else if m == 3 { 59 }
        else if m == 4 { 90 }
        else if m == 5 { 120 }
        else if m == 6 { 151 }
        else if m == 7 { 181 }
        else if m == 8 { 212 }
        else if m == 9 { 243 }
        else if m == 10 { 273 }
        else if m == 11 { 304 }
        else { 334 };
    if m > 2 && is_leap_year(y) { common + 1 } else { common }
}

/// The year as `%Y` writes it: four digits with leading zeros for years 0
/// to 9999, otherwise a sign followed by at least four digits.
pub open spec fn year_text(y: int) -> Seq<char> {
    if 0 <= y <= 9999 {
        zero_padded(y as nat, 4)
    } else if y < 0 {
        seq!['-'] + zero_padded((-y) as nat, 4)
    } else {
        seq!['+'] + zero_padded(y as nat, 4)
    }
}

/// A date written `%Y-%m-%d`, as dates are stored.
pub open spec fn date_text_spec(d: Date) -> Seq<char> {
    year_text(d.year as int) + seq!['-'] + zero_padded(d.month as nat, 2) + seq!['-'] + zero_padded(
        d.day as nat,
        2,
    )
}

/// Writes a date as `%Y-%m-%d`, the form in which dates are stored and
/// compared.
pub fn date_text(d: Date) -> (r: String)
    requires
        d.valid(),
    ensures
        r@ == date_text_spec(d),
{
    let mut s = String::new();
    let y = d.year;
    if y < 0 {
        s.append("-");
        append_zero_padded(&mut s, (0 - (y as i64)) as u64, 4);
    } else if y > 9999 {
        s.append("+");
        append_zero_padded(&mut s, y as u64, 4);
    } else {
        append_zero_padded(&mut s, y as u64, 4);
    }
    s.append("-");
    append_zero_padded(&mut s, d.month as u64, 2);
    s.append("-");
    append_zero_padded(&mut s, d.day as u64, 2);
    proof {
        reveal_strlit("-");
        reveal_strlit("+");
        assert(s@ =~= date_text_spec(d));
    }
    s
}

impl Date {
    /// The date with the given year, month and day, if there is one.
    pub fn new(year: i32, month: u32, day: u32) -> (r: Option<Date>)
        ensures
            r == (if valid_ymd(year as int, month as int, day as int) {
                Some(Date { year, month, day })
            } else {
                None
            }),
    {
        chrono_from_ymd(year, month, day)
    }

    /// Parses a date written as `%Y-%m-%d`, as the date library reads it.
    pub fn parse(s: &str) -> (r: Option<Date>)
        ensures
            r == chrono_parse_ymd(s@),
            r matches Some(d) ==> d.valid(),
            is_canonical_ymd(s@) ==> r == canonical_date(s@),
    {
        chrono_parse_ymd_str(s)
    }

    /// Whether `self` falls on or before `other`.
    pub fn on_or_before(&self, other: &Date) -> (r: bool)
        ensures
            r == !other.before(*self),
    {
        if self.year != other.year {
            self.year < other.year
        } else if self.month != other.month {
            self.month < other.month
        } else {
            self.day <= other.day
        }
    }

    /// Whether `self` falls strictly before `other`.
    pub fn is_before(&self, other: &Date) -> (r: bool)
        ensures
            r == self.before(*other),
    {
        !other.on_or_before(self)
    }

    /// The day number of the date: days elapsed since 0000-01-01.
    pub fn ordinal_number(&self) -> (r: i64)
        requires
            self.valid(),
        ensures
            r == self.day_number(),
    {
        let y = self.year as i64;
        let fours = (y + 3).checked_div_euclid(4).unwrap();
        let hundreds = (y + 99).checked_div_euclid(100).unwrap();
        let four_hundreds = (y + 399).checked_div_euclid(400).unwrap();
        let before_month = days_before_month_exec(self.year, self.month);
        365 * y + fours - hundreds + four_hundreds + before_month + self.day as i64 - 1
    }

    /// The date `days` days after `self`.
    pub fn add_days(self, days: i64) -> (r: Date)
        requires
            self.valid(),
            first_day_number() <= self.day_number() + days <= last_day_number(),
        ensures
            r.valid(),
            r.day_number() == self.day_number() + days,
    {
        chrono_add_days(self, days)
    }

    /// The date `days` days before `self`.
    pub fn sub_days(self, days: i64) -> (r: Date)
        requires
            self.valid(),
            first_day_number() <= self.day_number() - days <= last_day_number(),
        ensures
            r.valid(),
            r.day_number() == self.day_number() - days,
    {
        chrono_sub_days(self, days)
    }
}

} // verus!
