//! Calendar dates in the proleptic Gregorian calendar, as chrono's
//! `NaiveDate` has them: validity, the next day, the weekday and the
//! `YYYY-MM-DD` text. The calls go to chrono; their results are stated
//! here in calendar terms.
use vstd::prelude::*;
use chrono::{Datelike, Days, NaiveDate};
use crate::calendar::{days_before_month, days_before_year, lemma_div_step, lemma_mod_offset, lemma_mod7_shift};
use crate::text::{decimal, zero_pad};

verus! {

/// A calendar date (year, month 1 to 12, day of the month).
#[derive(Clone, Copy, Debug, PartialEq, Eq, Structural)]
pub struct Date {
    pub year: i32,
    pub month: u32,
    pub day: u32,
}

/// The first and last years chrono can represent.
pub const MIN_YEAR: i32 = -262143;

pub const MAX_YEAR: i32 = 262142;

/// Gregorian leap-year rule, for any year.
pub open spec fn leap_year(year: int) -> bool {
    year % 4 == 0 && (year % 100 != 0 || year % 400 == 0)
}

pub open spec fn month_length(month: u32, year: int) -> u32 {
    if month == 2 {
        if leap_year(year) { 29 } else { 28 }
    } else if month == 4 || month == 6 || month == 9 || month == 11 {
        30
    } else {
        31
    }
}

/// A date that exists and that chrono can represent.
pub open spec fn valid_date(d: Date) -> bool {
    &&& MIN_YEAR <= d.year <= MAX_YEAR
    &&& 1 <= d.month <= 12
    &&& 1 <= d.day <= month_length(d.month, d.year as int)
}

/// Days from 1970-01-01 to `d` (negative before it).
pub open spec fn day_number(d: Date) -> int {
    days_before_year(d.year as int) + days_before_month(d.month) + (if d.month > 2 && leap_year(
        d.year as int,
    ) {
        1int
    } else {
        0int
    }) + d.day - 1
}

/// Weekday of `d`, counted from Sunday (0) to Saturday (6);
/// 1970-01-01 was a Thursday.
pub open spec fn weekday_spec(d: Date) -> u32 {
    ((day_number(d) + 4) % 7) as u32
}

/// The day after `d`; `None` after the last representable date.
pub open spec fn next_date_spec(d: Date) -> Option<Date> {
    if d.day < month_length(d.month, d.year as int) {
        Some(Date { year: d.year, month: d.month, day: (d.day + 1) as u32 })
    } else if d.month < 12 {
        Some(Date { year: d.year, month: (d.month + 1) as u32, day: 1 })
    } else if d.year < MAX_YEAR {
        Some(Date { year: (d.year + 1) as i32, month: 1, day: 1 })
    } else {
        None
    }
}

/// The date `n` days after `d`, if representable.
pub open spec fn days_after(d: Date, n: nat) -> Option<Date>
    decreases n,
{
    if n == 0 {
        Some(d)
    } else {
        match days_after(d, (n - 1) as nat) {
            Some(e) => next_date_spec(e),
            None => None,
        }
    }
}

/// Chronological order of dates.
pub open spec fn date_le(a: Date, b: Date) -> bool {
    a.year < b.year || (a.year == b.year && (a.month < b.month || (a.month == b.month && a.day
        <= b.day)))
}

pub open spec fn date_lt(a: Date, b: Date) -> bool {
    date_le(a, b) && a != b
}

/// A number that grows with the date, used to bound walks over days.
pub open spec fn date_key(d: Date) -> int {
    (d.year + 262144) * 512 + d.month * 32 + d.day
}

/// The year as chrono's `%Y` writes it: four digits for years 0 to
/// 9999, otherwise a sign followed by at least four digits.
pub open spec fn year_text(year: int) -> Seq<char> {
    if 0 <= year <= 9999 {
        zero_pad(decimal(year as nat), 4)
    } else if year > 9999 {
        "+"@ + decimal(year as nat)
    } else {
        "-"@ + zero_pad(decimal((-year) as nat), 4)
    }
}

/// `d` written as chrono's `%Y-%m-%d` writes it.
pub open spec fn ymd_text(d: Date) -> Seq<char> {
    year_text(d.year as int) + "-"@ + zero_pad(decimal(d.month as nat), 2) + "-"@ + zero_pad(
        decimal(d.day as nat),
        2,
    )
}

/// Day numbers of representable dates stay well within `i64`.
pub proof fn lemma_day_number_bounds(d: Date)
    requires
        valid_date(d),
    ensures
        -100_000_000 <= day_number(d) <= 100_000_000,
{
}

/// The day number of a valid date (see `day_number`).
pub fn day_number_of(d: Date) -> (r: i64)
    requires
        valid_date(d),
    ensures
        r == day_number(d),
{
    proof {
        lemma_day_number_bounds(d);
    }
    let y = d.year as i64;
    let before_year = days_before_year_of(y);
    let before_month: i64 = match d.month {
        1 => 0,
        2 => 31,
        3 => 59,
        4 => 90,
        5 => 120,
        6 => 151,
        7 => 181,
        8 => 212,
        9 => 243,
        10 => 273,
        11 => 304,
        _ => 334,
    };
    let extra: i64 = if d.month > 2 && is_leap_year_of(y) {
        1
    } else {
        0
    };
    before_year + before_month + extra + (d.day as i64) - 1
}

/// Days from 1970-01-01 to January 1 of `y` (see `days_before_year`).
fn days_before_year_of(y: i64) -> (r: i64)
    requires
        MIN_YEAR <= y <= MAX_YEAR,
    ensures
        r == days_before_year(y as int),
{
    (y - 1970) * 365 + floor_div(y - 1969, 4) - floor_div(y - 1901, 100) + floor_div(y - 1601, 400)
}

/// The Gregorian leap-year rule on any representable year.
fn is_leap_year_of(y: i64) -> (r: bool)
    requires
        MIN_YEAR <= y <= MAX_YEAR,
    ensures
        r == leap_year(y as int),
{
    let f4 = floor_div(y, 4);
    let f100 = floor_div(y, 100);
    let f400 = floor_div(y, 400);
    proof {
        vstd::arithmetic::div_mod::lemma_fundamental_div_mod(y as int, 4);
        vstd::arithmetic::div_mod::lemma_fundamental_div_mod(y as int, 100);
        vstd::arithmetic::div_mod::lemma_fundamental_div_mod(y as int, 400);
    }
    y - f4 * 4 == 0 && (y - f100 * 100 != 0 || y - f400 * 400 == 0)
}

/// Floor division by a small positive divisor, as `/` means in
/// specifications.
fn floor_div(a: i64, b: i64) -> (r: i64)
    requires
        0 < b <= 1000,
        -1_000_000_000 <= a <= 1_000_000_000,
    ensures
        r == a / b,
{
    if a >= 0 {
        a / b
    } else {
        let t = -a + b - 1;
        let k = t / b;
        let r0 = t % b;
        proof {
            vstd::arithmetic::div_mod::lemma_fundamental_div_mod(t as int, b as int);
            assert(a == (-k) * b + (b - 1 - r0)) by (nonlinear_arith)
                requires
                    t == b * k + r0,
                    t == -a + b - 1,
            ;
            vstd::arithmetic::div_mod::lemma_fundamental_div_mod_converse(
                a as int,
                b as int,
                -k as int,
                (b - 1 - r0) as int,
            );
        }
        -k
    }
}

/// A valid date's successor is a valid date that comes strictly later.
pub proof fn lemma_next_date_later(d: Date)
    requires
        valid_date(d),
    ensures
        next_date_spec(d) matches Some(n) ==> valid_date(n) && date_lt(d, n) && date_key(n)
            > date_key(d),
        next_date_spec(d) is None <==> (d.year == MAX_YEAR && d.month == 12 && d.day == 31),
{
}

/// No date lies strictly between a date and the next one.
pub proof fn lemma_next_date_adjacent(d: Date, e: Date)
    requires
        valid_date(d),
        valid_date(e),
        date_lt(d, e),
    ensures
        next_date_spec(d) matches Some(n) && date_le(n, e),
{
}

/// For valid dates, the key orders dates as the calendar does.
pub proof fn lemma_key_order(a: Date, b: Date)
    requires
        valid_date(a),
        valid_date(b),
    ensures
        date_le(a, b) <==> date_key(a) <= date_key(b),
        a == b <==> date_key(a) == date_key(b),
{
}

/// The day after a date is numbered one more.
pub proof fn lemma_next_day_number(d: Date)
    requires
        valid_date(d),
        next_date_spec(d) is Some,
    ensures
        day_number(next_date_spec(d)->0) == day_number(d) + 1,
{
    let n = next_date_spec(d)->0;
    if d.day < month_length(d.month, d.year as int) {
    } else if d.month < 12 {
        assert(days_before_month((d.month + 1) as u32) + (if d.month + 1 > 2 && leap_year(
            d.year as int,
        ) {
            1int
        } else {
            0int
        }) == days_before_month(d.month) + (if d.month > 2 && leap_year(d.year as int) {
            1int
        } else {
            0int
        }) + month_length(d.month, d.year as int));
    } else {
        let y = d.year as int;
        lemma_div_step(y - 1968, 4);
        lemma_div_step(y - 1900, 100);
        lemma_div_step(y - 1600, 400);
        lemma_mod_offset(y, 492, 4);
        lemma_mod_offset(y, 19, 100);
        lemma_mod_offset(y, 4, 400);
        assert(days_before_year(y + 1) == days_before_year(y) + 365 + if leap_year(y) {
            1int
        } else {
            0int
        });
    }
}

/// Consecutive days have consecutive weekdays: the day after a Saturday
/// is a Sunday, and so on.
pub proof fn lemma_weekday_advances(d: Date)
    requires
        valid_date(d),
        next_date_spec(d) is Some,
    ensures
        weekday_spec(next_date_spec(d)->0) == (weekday_spec(d) + 1) % 7,
{
    lemma_next_day_number(d);
    lemma_mod7_shift(day_number(d), 1);
}

/// chrono's weekday of a date, counted from Sunday
/// (`NaiveDate::weekday().num_days_from_sunday()`). Claimed: it is the
/// weekday of the proleptic Gregorian calendar, `weekday_spec(d)`.
#[verifier::external_body]
fn chrono_weekday(d: Date) -> (r: u32)
    requires
        valid_date(d),
    ensures
        r == weekday_spec(d),
{
    NaiveDate::from_ymd_opt(d.year, d.month, d.day).unwrap().weekday().num_days_from_sunday()
}

/// chrono's `NaiveDate::succ_opt`. Claimed: the next calendar day, or
/// `None` on the last representable date.
#[verifier::external_body]
fn chrono_succ(d: Date) -> (r: Option<Date>)
    requires
        valid_date(d),
    ensures
        r == next_date_spec(d),
{
    match NaiveDate::from_ymd_opt(d.year, d.month, d.day).unwrap().succ_opt() {
        Some(n) => Some(Date { year: n.year(), month: n.month(), day: n.day() }),
        None => None,
    }
}

/// chrono's `NaiveDate::checked_add_days`. Claimed: the date `days`
/// days later, or `None` when it is past the last representable date.
#[verifier::external_body]
fn chrono_add_days(d: Date, days: u64) -> (r: Option<Date>)
    requires
        valid_date(d),
    ensures
        r == days_after(d, days as nat),
{
    match NaiveDate::from_ymd_opt(d.year, d.month, d.day).unwrap().checked_add_days(
        Days::new(days),
    ) {
        Some(n) => Some(Date { year: n.year(), month: n.month(), day: n.day() }),
        None => None,
    }
}

/// chrono's `NaiveDate::checked_sub_days`. Claimed: the date `days` days
/// earlier, that is the valid date from which `days` days later is `d`;
/// `None` when there is none (before the first representable date).
#[verifier::external_body]
fn chrono_sub_days(d: Date, days: u64) -> (r: Option<Date>)
    requires
        valid_date(d),
    ensures
        match r {
            Some(p) => valid_date(p) && days_after(p, days as nat) == Some(d),
            None => forall|p: Date| valid_date(p) ==> #[trigger] days_after(p, days as nat) != Some(d),
        },
{
    match NaiveDate::from_ymd_opt(d.year, d.month, d.day).unwrap().checked_sub_days(
        Days::new(days),
    ) {
        Some(n) => Some(Date { year: n.year(), month: n.month(), day: n.day() }),
        None => None,
    }
}

/// chrono's `format("%Y-%m-%d")` on a date. Claimed: the text
/// `ymd_text(d)`.
#[verifier::external_body]
fn chrono_ymd(d: Date) -> (r: String)
    requires
        valid_date(d),
    ensures
        r@ == ymd_text(d),
{
    NaiveDate::from_ymd_opt(d.year, d.month, d.day).unwrap().format("%Y-%m-%d").to_string()
}

/// Weekday of a date, 0 for Sunday to 6 for Saturday.
pub fn weekday_from_sunday(d: Date) -> (r: u32)
    requires
        valid_date(d),
    ensures
        r == weekday_spec(d),
        r < 7,
{
    chrono_weekday(d)
}

/// The day after `d`, or `None` on the last representable date.
pub fn next_date(d: Date) -> (r: Option<Date>)
    requires
        valid_date(d),
    ensures
        r == next_date_spec(d),
        r matches Some(n) ==> valid_date(n) && date_lt(d, n),
{
    proof {
        lemma_next_date_later(d);
    }
    chrono_succ(d)
}

/// The date `days` days after `d`, if representable.
pub fn add_days(d: Date, days: u64) -> (r: Option<Date>)
    requires
        valid_date(d),
    ensures
        r == days_after(d, days as nat),
{
    chrono_add_days(d, days)
}

/// The date `days` days before `d`, if representable.
pub fn sub_days(d: Date, days: u64) -> (r: Option<Date>)
    requires
        valid_date(d),
    ensures
        match r {
            Some(p) => valid_date(p) && days_after(p, days as nat) == Some(d),
            None => forall|p: Date| valid_date(p) ==> #[trigger] days_after(p, days as nat) != Some(d),
        },
{
    chrono_sub_days(d, days)
}

/// `d` as `YYYY-MM-DD`.
pub fn format_ymd(d: Date) -> (r: String)
    requires
        valid_date(d),
    ensures
        r@ == ymd_text(d),
{
    chrono_ymd(d)
}

/// Whether `a` is on or before `b`.
pub fn date_on_or_before(a: &Date, b: &Date) -> (r: bool)
    ensures
        r == date_le(*a, *b),
{
    a.year < b.year || (a.year == b.year && (a.month < b.month || (a.month == b.month && a.day
        <= b.day)))
}

/// Whether `date` falls on the allowance weekday `day_of_week`
/// (0 = Sunday).
pub fn is_allowance_day(date: Date, allowance_day_of_week: u8) -> (r: bool)
    requires
        valid_date(date),
    ensures
        r == (weekday_spec(date) == allowance_day_of_week),
{
    let wd = weekday_from_sunday(date);
    wd == allowance_day_of_week as u32
}

} // verus!
