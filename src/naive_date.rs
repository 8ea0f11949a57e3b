//! Calendar dates as day numbers, week arithmetic, and the calendar
//! conversions that chrono performs.
use chrono::Datelike;
use chrono::Timelike;
use vstd::arithmetic::div_mod::lemma_mod_multiples_vanish;
use vstd::prelude::*;

verus! {

/// Day number of the earliest date chrono represents (`NaiveDate::MIN`).
pub const MIN_DAYS: i32 = -95746129;

/// Day number of the latest date chrono represents (`NaiveDate::MAX`).
pub const MAX_DAYS: i32 = 95745399;

/// A calendar date, as its day number in the proleptic Gregorian calendar:
/// 0001-01-01 is day 1.
#[derive(Clone, Copy, Debug, PartialEq, Eq, Structural, Hash)]
pub struct Date {
    pub days: i32,
}

/// The day numbers of a sequence of dates.
pub open spec fn day_numbers(ds: Seq<Date>) -> Seq<int> {
    ds.map_values(|d: Date| d.days as int)
}

/// A day number that names a representable date.
pub open spec fn in_range(days: int) -> bool {
    MIN_DAYS <= days <= MAX_DAYS
}

/// Days since the Monday of the date's week (Monday 0 .. Sunday 6).
/// Day 1, 0001-01-01, was a Monday.
pub open spec fn weekday_of(days: int) -> int {
    (days - 1) % 7
}

/// Day number of the Monday of the week that holds `days`.
pub open spec fn monday_of(days: int) -> int {
    days - weekday_of(days)
}

/// What chrono reads as an ISO date (`%Y-%m-%d`), as a day number.
pub uninterp spec fn iso_date_of(text: Seq<char>) -> Option<int>;

/// chrono's `%Y-%m-%d` rendering of a day number.
pub uninterp spec fn iso_text_of(days: int) -> Seq<char>;

/// chrono's year and month (1..12) of a day number.
pub uninterp spec fn year_month_of(days: int) -> (int, int);

/// chrono's day number of a year, month and day, where that is a date.
pub uninterp spec fn ymd_days(year: int, month: int, day: int) -> Option<int>;

impl Date {
    pub open spec fn wf(&self) -> bool {
        in_range(self.days as int)
    }

    /// Days since Monday of this date's week.
    pub fn weekday_from_monday(&self) -> (r: u32)
        requires
            self.wf(),
        ensures
            r == weekday_of(self.days as int),
            r < 7,
    {
        let shifted: u64 = (self.days as i64 - 1 + 7 * 14_000_000) as u64;
        proof {
            lemma_mod_multiples_vanish(14_000_000, self.days as int - 1, 7);
        }
        (shifted % 7) as u32
    }

    /// The date `n` days later (earlier when negative), where representable.
    pub fn add_days(&self, n: i64) -> (r: Option<Date>)
        requires
            -1_000_000_000 <= n <= 1_000_000_000,
        ensures
            match r {
                Some(d) => d.days == self.days + n && d.wf(),
                None => !in_range(self.days + n),
            },
    {
        let t = self.days as i64 + n;
        if MIN_DAYS as i64 <= t && t <= MAX_DAYS as i64 {
            Some(Date { days: t as i32 })
        } else {
            None
        }
    }

    /// Whether the date falls on a Saturday or a Sunday.
    pub fn is_weekend(&self) -> (r: bool)
        requires
            self.wf(),
        ensures
            r == (weekday_of(self.days as int) >= 5),
    {
        self.weekday_from_monday() >= 5
    }
}

/// Relies on chrono's `NaiveDate::parse_from_str` with `%Y-%m-%d` and
/// `num_days_from_ce`; every `NaiveDate` lies in chrono's range.
#[verifier::external_body]
pub(crate) fn parse_iso_date(text: &str) -> (r: Option<Date>)
    ensures
        match r {
            Some(d) => iso_date_of(text@) == Some(d.days as int) && d.wf(),
            None => iso_date_of(text@) is None,
        },
{
    match chrono::NaiveDate::parse_from_str(text, "%Y-%m-%d") {
        Ok(d) => Some(Date { days: d.num_days_from_ce() }),
        Err(_) => None,
    }
}

/// Relies on chrono's `NaiveDate::from_num_days_from_ce_opt` and its
/// `%Y-%m-%d` formatting.
#[verifier::external_body]
pub(crate) fn iso_text(d: Date) -> (r: String)
    requires
        d.wf(),
    ensures
        r@ == iso_text_of(d.days as int),
{
    chrono::NaiveDate::from_num_days_from_ce_opt(d.days).unwrap().format("%Y-%m-%d").to_string()
}

/// Relies on chrono's `NaiveDate::year` and `NaiveDate::month` (1..12);
/// chrono's years run from -262143 to 262142.
#[verifier::external_body]
pub(crate) fn year_month(d: Date) -> (r: (i32, u32))
    requires
        d.wf(),
    ensures
        (r.0 as int, r.1 as int) == year_month_of(d.days as int),
        1 <= r.1 <= 12,
        -262143 <= r.0 <= 262142,
{
    let n = chrono::NaiveDate::from_num_days_from_ce_opt(d.days).unwrap();
    (n.year(), n.month())
}

/// Relies on chrono's `NaiveDate::from_ymd_opt` and `num_days_from_ce`.
#[verifier::external_body]
pub(crate) fn from_ymd(year: i32, month: u32, day: u32) -> (r: Option<Date>)
    ensures
        match r {
            Some(d) => ymd_days(year as int, month as int, day as int) == Some(d.days as int)
                && d.wf(),
            None => ymd_days(year as int, month as int, day as int) is None,
        },
{
    match chrono::NaiveDate::from_ymd_opt(year, month, day) {
        Some(d) => Some(Date { days: d.num_days_from_ce() }),
        None => None,
    }
}

/// What chrono reads as a time of day (`%H:%M`): seconds since midnight,
/// or the text of its parse error.
pub uninterp spec fn clock_time_of(text: Seq<char>) -> Result<int, Seq<char>>;

/// Relies on chrono's `NaiveTime::parse_from_str` with `%H:%M`,
/// `num_seconds_from_midnight` (below 86400) and the `Display` text of its
/// `ParseError`.
#[verifier::external_body]
pub(crate) fn parse_clock_time(text: &str) -> (r: Result<u32, String>)
    ensures
        match r {
            Ok(s) => clock_time_of(text@) == Ok::<int, Seq<char>>(s as int) && s < 86400,
            Err(e) => clock_time_of(text@) == Err::<int, Seq<char>>(e@),
        },
{
    match chrono::NaiveTime::parse_from_str(text, "%H:%M") {
        Ok(t) => Ok(t.num_seconds_from_midnight()),
        Err(e) => Err(e.to_string()),
    }
}

/// The last day of the month of a day number: the day before the first of
/// the next month, where that is representable.
pub open spec fn last_of_month(days: int) -> Option<int> {
    let (y, m) = year_month_of(days);
    let next = if m == 12 { ymd_days(y + 1, 1, 1) } else { ymd_days(y, m + 1, 1) };
    match next {
        Some(n) => if in_range(n - 1) { Some(n - 1) } else { None },
        None => None,
    }
}

/// The last day of the date's month; see `last_of_month`.
pub fn last_day_of_month(date: Date) -> (r: Option<Date>)
    requires
        date.wf(),
    ensures
        match last_of_month(date.days as int) {
            Some(n) => r is Some && r->0.days == n && r->0.wf(),
            None => r is None,
        },
{
    let (year, month) = year_month(date);
    let next = if month == 12 {
        from_ymd(year + 1, 1, 1)
    } else {
        from_ymd(year, month + 1, 1)
    };
    match next {
        Some(n) => n.add_days(-1),
        None => None,
    }
}

/// The dates `first`, `first + 7`, `first + 14`, ... up to `last`.
pub fn one_date_per_week(first_date: Date, last_date: Date) -> (r: Vec<Date>)
    ensures
        r@.len() == (if first_date.days <= last_date.days {
            (last_date.days - first_date.days) / 7 + 1
        } else {
            0
        }),
        forall|k: int| 0 <= k < r@.len() ==> r@[k].days == first_date.days + 7 * k,
{
    let mut r: Vec<Date> = Vec::new();
    if first_date.days > last_date.days {
        return r;
    }
    let mut d: i64 = first_date.days as i64;
    while d <= last_date.days as i64
        invariant
            first_date.days <= d <= last_date.days + 7,
            (d - first_date.days) % 7 == 0,
            r@.len() == (d - first_date.days) / 7,
            forall|k: int| 0 <= k < r@.len() ==> r@[k].days == first_date.days + 7 * k,
        decreases last_date.days + 7 - d,
    {
        r.push(Date { days: d as i32 });
        d = d + 7;
    }
    r
}

} // verus!
