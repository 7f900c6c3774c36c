//! Calendar dates of the proleptic Gregorian calendar, as the task format
//! writes them (`YYYY-MM-DD`).

use chrono::{Datelike, Local, NaiveDate};
use vstd::prelude::*;

verus! {

/// The earliest year a date may have.
pub const MIN_YEAR: i32 = -262143;

/// The latest year a date may have.
pub const MAX_YEAR: i32 = 262142;

/// A calendar date held as plain numbers.
#[derive(Clone, Copy, Debug, PartialEq, Eq, Structural)]
pub struct Date {
    pub year: i32,
    pub month: u32,
    pub day: u32,
}

pub open spec fn is_leap_year(y: int) -> bool {
    (y % 4 == 0 && y % 100 != 0) || y % 400 == 0
}

pub open spec fn days_in_month(y: int, m: int) -> int {
    if m == 2 {
        if is_leap_year(y) { 29 } else { 28 }
    } else if m == 4 || m == 6 || m == 9 || m == 11 {
        30
    } else {
        31
    }
}

/// Days from 0001-01-01 to the first day of year `y` (negative before it).
pub open spec fn days_before_year(y: int) -> int {
    let p = y - 1;
    365 * p + p / 4 - p / 100 + p / 400
}

/// Days from the first of January of year `y` to the first day of month `m`.
pub open spec fn days_before_month(y: int, m: int) -> int {
    let common = seq![0int, 31, 59, 90, 120, 151, 181, 212, 243, 273, 304, 334];
    common[m - 1] + if m > 2 && is_leap_year(y) { 1int } else { 0int }
}

impl Date {
    /// The date exists in the calendar and lies in the supported range of years.
    pub open spec fn valid(self) -> bool {
        &&& MIN_YEAR <= self.year <= MAX_YEAR
        &&& 1 <= self.month <= 12
        &&& 1 <= self.day <= days_in_month(self.year as int, self.month as int)
    }

    /// The number of the day, counting 0001-01-01 as day one.
    pub open spec fn day_number(self) -> int {
        days_before_year(self.year as int) + days_before_month(self.year as int, self.month as int)
            + self.day
    }

    /// Chronological order: by year, then month, then day.
    pub open spec fn before(self, other: Date) -> bool {
        ||| self.year < other.year
        ||| self.year == other.year && self.month < other.month
        ||| self.year == other.year && self.month == other.month && self.day < other.day
    }

    /// A single integer that orders valid dates chronologically.
    pub open spec fn rank_spec(self) -> int {
        self.year * 512 + self.month * 32 + self.day
    }

    pub proof fn lemma_rank_orders(self, other: Date)
        requires
            self.valid(),
            other.valid(),
        ensures
            self.before(other) <==> self.rank_spec() < other.rank_spec(),
            self == other <==> self.rank_spec() == other.rank_spec(),
    {
        assert(self.before(other) <==> self.rank_spec() < other.rank_spec()) by (nonlinear_arith)
            requires
                1 <= self.month <= 12,
                1 <= self.day <= 31,
                1 <= other.month <= 12,
                1 <= other.day <= 31,
        ;
        assert(self.rank_spec() == other.rank_spec() ==> self == other) by (nonlinear_arith)
            requires
                1 <= self.month <= 12,
                1 <= self.day <= 31,
                1 <= other.month <= 12,
                1 <= other.day <= 31,
        ;
    }

    /// Makes a date from its year, month and day, where they name a valid date.
    pub fn new(year: i32, month: u32, day: u32) -> (r: Option<Date>)
        ensures
            r matches Some(d) ==> d == (Date { year, month, day }),
            r is Some <==> (Date { year, month, day }).valid(),
    {
        if year < MIN_YEAR || year > MAX_YEAR || month < 1 || month > 12 || day < 1 {
            return None;
        }
        let leap = (year % 4 == 0 && year % 100 != 0) || year % 400 == 0;
        let last: u32 = if month == 2 {
            if leap { 29 } else { 28 }
        } else if month == 4 || month == 6 || month == 9 || month == 11 {
            30
        } else {
            31
        };
        if day > last {
            None
        } else {
            Some(Date { year, month, day })
        }
    }

    /// The date as the task format writes it, `YYYY-MM-DD`.
    pub fn to_text(&self) -> (r: String)
        requires
            self.valid(),
        ensures
            r@ == date_text(*self),
    {
        format_date(*self)
    }

    /// An integer key that sorts valid dates chronologically.
    pub fn rank(&self) -> (r: i64)
        requires
            self.valid(),
        ensures
            r == self.rank_spec(),
    {
        self.year as i64 * 512 + self.month as i64 * 32 + self.day as i64
    }
}

pub open spec fn digit_char(d: int) -> char {
    seq!['0', '1', '2', '3', '4', '5', '6', '7', '8', '9'][d]
}

/// The decimal digits of `n`, most significant first.
pub open spec fn decimal(n: nat) -> Seq<char>
    decreases n,
{
    if n < 10 {
        seq![digit_char(n as int)]
    } else {
        decimal(n / 10).push(digit_char((n % 10) as int))
    }
}

/// The decimal digits of `n`, left-padded with zeros to at least `width` characters.
pub open spec fn padded(n: nat, width: nat) -> Seq<char> {
    let ds = decimal(n);
    if ds.len() < width {
        Seq::new((width - ds.len()) as nat, |i: int| '0') + ds
    } else {
        ds
    }
}

/// A year as the task format writes it: four digits from 0 to 9999, and a
/// sign before at least four digits outside that range.
pub open spec fn year_text(y: int) -> Seq<char> {
    if 0 <= y <= 9999 {
        padded(y as nat, 4)
    } else if y > 9999 {
        seq!['+'] + padded(y as nat, 4)
    } else {
        seq!['-'] + padded((-y) as nat, 4)
    }
}

/// A date as the task format writes it: `YYYY-MM-DD`.
pub open spec fn date_text(d: Date) -> Seq<char> {
    year_text(d.year as int) + seq!['-'] + padded(d.month as nat, 2) + seq!['-'] + padded(
        d.day as nat,
        2,
    )
}

/// What reading `s` as a `YYYY-MM-DD` date gives, if anything.
pub uninterp spec fn date_from_text(s: Seq<char>) -> Option<Date>;

/// Relies on chrono's `NaiveDate::parse_from_str` with the format `%Y-%m-%d`:
/// its result depends on the text alone, is a valid date, and a date written
/// in the form above reads back as itself.
#[verifier::external_body]
pub(crate) fn parse_date(s: &str) -> (r: Option<Date>)
    ensures
        r == date_from_text(s@),
        r matches Some(d) ==> d.valid(),
        forall|d: Date| d.valid() && s@ == date_text(d) ==> r == Some(d),
{
    match NaiveDate::parse_from_str(s, "%Y-%m-%d") {
        Ok(d) => Some(Date { year: d.year(), month: d.month(), day: d.day() }),
        Err(_) => None,
    }
}

/// Relies on chrono's `NaiveDate::from_ymd_opt` (which accepts every valid
/// date) and on formatting it with `%Y-%m-%d`.
#[verifier::external_body]
pub(crate) fn format_date(d: Date) -> (r: String)
    requires
        d.valid(),
    ensures
        r@ == date_text(d),
{
    NaiveDate::from_ymd_opt(d.year, d.month, d.day).expect("a valid date").format(
        "%Y-%m-%d",
    ).to_string()
}

/// Relies on chrono's `Local::now`: the date of the present moment in the
/// local time zone, which is some valid date.
#[verifier::external_body]
pub(crate) fn today() -> (r: Date)
    ensures
        r.valid(),
{
    let d = Local::now().date_naive();
    Date { year: d.year(), month: d.month(), day: d.day() }
}

/// Relies on chrono's `NaiveDate` subtraction and `TimeDelta::num_days`: the
/// number of days from `from` to `to`.
#[verifier::external_body]
pub(crate) fn days_between(from: Date, to: Date) -> (r: i64)
    requires
        from.valid(),
        to.valid(),
    ensures
        r == to.day_number() - from.day_number(),
{
    let a = NaiveDate::from_ymd_opt(from.year, from.month, from.day).expect("a valid date");
    let b = NaiveDate::from_ymd_opt(to.year, to.month, to.day).expect("a valid date");
    (b - a).num_days()
}

} // verus!
