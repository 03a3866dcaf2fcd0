//! Calendar arithmetic: month lengths, leap years, the weekday on which a
//! month starts, month navigation, and reading dates out of RFC 3339
//! timestamps.
use vstd::prelude::*;
use crate::text::{push_str, push_decimal, chars_of, split_ranges, split_spec, lemma_split_nonempty, parse_u32_range, parse_u32_spec, decimal};

verus! {

/// Gregorian leap-year rule.
pub open spec fn is_leap(year: nat) -> bool {
    year % 4 == 0 && (year % 100 != 0 || year % 400 == 0)
}

pub open spec fn days_in_month_spec(month: u32, year: u32) -> u32 {
    if month == 2 {
        if is_leap(year as nat) { 29 } else { 28 }
    } else if month == 4 || month == 6 || month == 9 || month == 11 {
        30
    } else {
        31
    }
}

/// Days in a common year before the first of `month` (1 to 12).
pub open spec fn days_before_month(month: u32) -> int {
    if month == 1 { 0 }
    else if month == 2 { 31 }
    else if month == 3 { 59 }
    else if month == 4 { 90 }
    else if month == 5 { 120 }
    else if month == 6 { 151 }
    else if month == 7 { 181 }
    else if month == 8 { 212 }
    else if month == 9 { 243 }
    else if month == 10 { 273 }
    else if month == 11 { 304 }
    else { 334 }
}

/// Days from 1970-01-01 to January 1 of `year` (for years from 1970).
pub open spec fn days_before_year(year: int) -> int {
    (year - 1970) * 365 + (year - 1969) / 4 - (year - 1901) / 100 + (year - 1601) / 400
}

/// Days from 1970-01-01 to the first of `month` in `year`.
pub open spec fn days_before(month: u32, year: u32) -> int {
    days_before_year(year as int) + days_before_month(month) + if month > 2 && is_leap(
        year as nat,
    ) {
        1int
    } else {
        0int
    }
}

/// Weekday (0 = Sunday) of the first of `month`, counting from
/// 1970-01-01, a Thursday.
pub open spec fn first_day_spec(month: u32, year: u32) -> u32 {
    ((days_before(month, year) + 4) % 7) as u32
}

/// The computation of the first weekday of `month` in `year` stays within
/// `u32`: the year is 1970 or later, the first two terms of the day count
/// fit, and so does the whole count plus the four days of the epoch's
/// weekday.
pub open spec fn first_day_fits(month: u32, year: u32) -> bool {
    &&& 1970 <= year
    &&& (year - 1970) * 365 + (year - 1969) / 4 <= u32::MAX
    &&& days_before(month, year) + 4 <= u32::MAX
}

pub open spec fn month_name_spec(month: u32) -> Seq<char> {
    if month == 1 { "January"@ }
    else if month == 2 { "February"@ }
    else if month == 3 { "March"@ }
    else if month == 4 { "April"@ }
    else if month == 5 { "May"@ }
    else if month == 6 { "June"@ }
    else if month == 7 { "July"@ }
    else if month == 8 { "August"@ }
    else if month == 9 { "September"@ }
    else if month == 10 { "October"@ }
    else if month == 11 { "November"@ }
    else if month == 12 { "December"@ }
    else { "Invalid Month"@ }
}

/// The `(year, month, day)` that a timestamp such as
/// `2025-06-13T09:00:00-04:00` starts with: the text before the first `T`
/// must be three `-`-separated numbers, each read as std reads a `u32`.
pub open spec fn parse_date_spec(s: Seq<char>) -> Option<(u32, u32, u32)> {
    let head = split_spec(s, 'T')[0];
    let parts = split_spec(head, '-');
    if parts.len() == 3 {
        match (parse_u32_spec(parts[0]), parse_u32_spec(parts[1]), parse_u32_spec(parts[2])) {
            (Some(y), Some(m), Some(d)) => Some((y, m, d)),
            _ => None,
        }
    } else {
        None
    }
}

/// "June 13, 2025" for a timestamp on that day; the text itself when it
/// does not start with a date.
pub open spec fn display_date_spec(s: Seq<char>) -> Seq<char> {
    match parse_date_spec(s) {
        Some((y, m, d)) => month_name_spec(m) + " "@ + decimal(d as nat) + ", "@ + decimal(
            y as nat,
        ),
        None => s,
    }
}

pub open spec fn previous_month_spec(month: u32, year: u32) -> (u32, u32) {
    if month == 1 {
        (12, (year - 1) as u32)
    } else {
        ((month - 1) as u32, year)
    }
}

pub open spec fn next_month_spec(month: u32, year: u32) -> (u32, u32) {
    if month == 12 {
        (1, (year + 1) as u32)
    } else {
        ((month + 1) as u32, year)
    }
}

/// Reads the date at the start of a timestamp (see `parse_date_spec`).
pub fn parse_date(date_str: &str) -> (r: Option<(u32, u32, u32)>)
    ensures
        r == parse_date_spec(date_str@),
{
    let v = chars_of(date_str);
    let tparts = split_ranges(&v, 0, v.len(), 'T');
    proof {
        lemma_split_nonempty(v@.subrange(0, v@.len() as int), 'T');
        assert(v@.subrange(0, v@.len() as int) =~= date_str@);
    }
    let (a, b) = tparts[0];
    let parts = split_ranges(&v, a, b, '-');
    if parts.len() == 3 {
        let (y0, y1) = parts[0];
        let (m0, m1) = parts[1];
        let (d0, d1) = parts[2];
        let y = parse_u32_range(&v, y0, y1);
        let m = parse_u32_range(&v, m0, m1);
        let d = parse_u32_range(&v, d0, d1);
        match (y, m, d) {
            (Some(y), Some(m), Some(d)) => Some((y, m, d)),
            _ => None,
        }
    } else {
        None
    }
}

/// The English name of a month number, "Invalid Month" outside 1 to 12.
pub fn month_name_of(month: u32) -> (r: &'static str)
    ensures
        r@ == month_name_spec(month),
{
    match month {
        1 => "January",
        2 => "February",
        3 => "March",
        4 => "April",
        5 => "May",
        6 => "June",
        7 => "July",
        8 => "August",
        9 => "September",
        10 => "October",
        11 => "November",
        12 => "December",
        _ => "Invalid Month",
    }
}

} // verus!

verus! {

/// Calendar computations for the month view.
#[derive(Clone, Copy)]
pub struct CalendarService;

fn cumulative_days(month: u32) -> (r: u32)
    requires
        1 <= month <= 12,
    ensures
        r == days_before_month(month),
{
    match month {
        1 => 0,
        2 => 31,
        3 => 59,
        4 => 90,
        5 => 120,
        6 => 151,
        7 => 181,
        8 => 212,
        9 => 243,
        10 => 273,
        11 => 304,
        _ => 334,
    }
}

impl CalendarService {
    pub fn new() -> (r: Self) {
        CalendarService
    }

    /// Number of days in `month` of `year`; months other than 2, 4, 6, 9
    /// and 11 have 31.
    pub fn days_in_month(&self, month: u32, year: u32) -> (r: u32)
        ensures
            r == days_in_month_spec(month, year),
    {
        match month {
            2 => if self.is_leap_year(year) { 29 } else { 28 },
            4 | 6 | 9 | 11 => 30,
            _ => 31,
        }
    }

    pub fn is_leap_year(&self, year: u32) -> (r: bool)
        ensures
            r == is_leap(year as nat),
    {
        year % 4 == 0 && (year % 100 != 0 || year % 400 == 0)
    }

    /// Weekday (0 = Sunday) of the first day of `month` in `year`.
    pub fn first_day_of_month(&self, month: u32, year: u32) -> (r: u32)
        requires
            1 <= month <= 12,
            first_day_fits(month, year),
        ensures
            r == first_day_spec(month, year),
            r < 7,
    {
        let a: u32 = (year - 1970) * 365;
        let b: u32 = (year - 1969) / 4;
        let c: u32 = (year - 1901) / 100;
        let d: u32 = (year - 1601) / 400;
        assert(c <= a + b) by {
            if year >= 1971 {
                assert((year - 1901) / 100 <= year - 1901) by (nonlinear_arith)
                    requires year >= 1901;
                assert((year - 1970) * 365 >= year - 1901) by (nonlinear_arith)
                    requires year >= 1971;
            } else {
                assert(year == 1970);
            }
        }
        let days_since_epoch = a + b - c + d;
        let mut total_days = days_since_epoch + cumulative_days(month);
        if month > 2 && self.is_leap_year(year) {
            total_days += 1;
        }
        (total_days + 4) % 7
    }

    /// Whether `month` of `year` is one whose first weekday can be worked
    /// out (see `first_day_fits`).
    pub fn month_fits(&self, month: u32, year: u32) -> (r: bool)
        ensures
            r == (1 <= month <= 12 && first_day_fits(month, year)),
    {
        if month < 1 || month > 12 || year < 1970 {
            return false;
        }
        let y = year as u64;
        let a: u64 = (y - 1970) * 365;
        let b: u64 = (y - 1969) / 4;
        if a + b > 4294967295 {
            return false;
        }
        let c: u64 = (y - 1901) / 100;
        let d: u64 = (y - 1601) / 400;
        assert(c <= a + b) by {
            assert((y - 1901) / 100 <= y - 1901 + 1) by (nonlinear_arith)
                requires y >= 1970;
        }
        let mut total: u64 = a + b - c + d + cumulative_days(month) as u64;
        if month > 2 && self.is_leap_year(year) {
            total = total + 1;
        }
        total + 4 <= 4294967295
    }

    /// The cells of a month's calendar grid, week rows starting on Sunday:
    /// an empty cell (0) for each weekday before the first, then the days
    /// 1 to the month's length.
    pub fn month_cells(&self, month: u32, year: u32) -> (r: Vec<u32>)
        requires
            1 <= month <= 12,
            first_day_fits(month, year),
        ensures
            r.len() == first_day_spec(month, year) + days_in_month_spec(month, year),
            forall|k: int| 0 <= k < first_day_spec(month, year) ==> #[trigger] r@[k] == 0,
            forall|k: int|
                first_day_spec(month, year) <= k < r.len() ==> #[trigger] r@[k] == k
                    - first_day_spec(month, year) + 1,
    {
        let first = self.first_day_of_month(month, year);
        let days = self.days_in_month(month, year);
        let mut cells: Vec<u32> = Vec::new();
        let mut i: u32 = 0;
        while i < first
            invariant
                i <= first < 7,
                cells.len() == i,
                forall|k: int| 0 <= k < i ==> #[trigger] cells@[k] == 0,
            decreases first - i,
        {
            cells.push(0);
            i += 1;
        }
        let mut day: u32 = 1;
        while day <= days
            invariant
                1 <= day <= days + 1,
                days <= 31,
                first < 7,
                cells.len() == first + day - 1,
                forall|k: int| 0 <= k < first ==> #[trigger] cells@[k] == 0,
                forall|k: int| first <= k < cells.len() ==> #[trigger] cells@[k] == k - first + 1,
            decreases days + 1 - day,
        {
            cells.push(day);
            day += 1;
        }
        cells
    }

    /// English name of a month number.
    pub fn month_name(&self, month: u32) -> (r: &'static str)
        ensures
            r@ == month_name_spec(month),
    {
        month_name_of(month)
    }

    /// `(year, month, day)` read from the date part of an RFC 3339 string.
    pub fn parse_transaction_date(&self, date_str: &str) -> (r: Option<(u32, u32, u32)>)
        ensures
            r == parse_date_spec(date_str@),
    {
        parse_date(date_str)
    }

    /// "June 13, 2025" for a timestamp on that day, otherwise the input.
    pub fn format_date_for_display(&self, date_str: &str) -> (r: String)
        ensures
            r@ == display_date_spec(date_str@),
    {
        match self.parse_transaction_date(date_str) {
            Some((year, month, day)) => {
                let mut out = String::new();
                push_str(&mut out, self.month_name(month));
                push_str(&mut out, " ");
                push_decimal(&mut out, day as u64);
                push_str(&mut out, ", ");
                push_decimal(&mut out, year as u64);
                out
            },
            None => {
                let mut out = String::new();
                push_str(&mut out, date_str);
                out
            },
        }
    }

    /// The month before; January goes back to December of the year before.
    pub fn previous_month(&self, current_month: u32, current_year: u32) -> (r: (u32, u32))
        requires
            current_month != 0,
            current_month == 1 ==> current_year >= 1,
        ensures
            r == previous_month_spec(current_month, current_year),
    {
        if current_month == 1 {
            (12, current_year - 1)
        } else {
            (current_month - 1, current_year)
        }
    }

    /// The month after; December goes on to January of the next year.
    pub fn next_month(&self, current_month: u32, current_year: u32) -> (r: (u32, u32))
        requires
            current_month != u32::MAX,
            current_month == 12 ==> current_year < u32::MAX,
        ensures
            r == next_month_spec(current_month, current_year),
    {
        if current_month == 12 {
            (1, current_year + 1)
        } else {
            (current_month + 1, current_year)
        }
    }
}

} // verus!

verus! {

pub(crate) proof fn lemma_mod7_shift(x: int, d: int)
    ensures
        (((x + 4) % 7) + d) % 7 == (x + d + 4) % 7,
{
    vstd::arithmetic::div_mod::lemma_add_mod_noop_right(d, x + 4, 7);
    assert(d + (x + 4) == x + d + 4);
}

/// Each month of a year starts on the weekday that follows the last day
/// of the month before.
pub proof fn lemma_month_start_follows(month: u32, year: u32)
    requires
        1 <= month <= 11,
    ensures
        first_day_spec((month + 1) as u32, year) == (first_day_spec(month, year)
            + days_in_month_spec(month, year)) % 7,
{
    let x = days_before(month, year);
    let d = days_in_month_spec(month, year) as int;
    assert(days_before((month + 1) as u32, year) == x + d);
    lemma_mod7_shift(x, d);
}

pub(crate) proof fn lemma_div_step(n: int, k: int)
    requires
        k >= 1,
    ensures
        n / k - (n - 1) / k == if n % k == 0 { 1int } else { 0int },
{
    vstd::arithmetic::div_mod::lemma_fundamental_div_mod(n, k);
    let q = n / k;
    let r = n % k;
    if r == 0 {
        assert(n - 1 == (q - 1) * k + (k - 1)) by (nonlinear_arith)
            requires n == k * q + r, r == 0;
        vstd::arithmetic::div_mod::lemma_fundamental_div_mod_converse(n - 1, k, q - 1, k - 1);
    } else {
        assert(n - 1 == q * k + (r - 1)) by (nonlinear_arith)
            requires n == k * q + r;
        vstd::arithmetic::div_mod::lemma_fundamental_div_mod_converse(n - 1, k, q, r - 1);
    }
}

pub(crate) proof fn lemma_mod_offset(y: int, c: int, k: int)
    requires
        k >= 1,
    ensures
        (y - c * k) % k == y % k,
{
    vstd::arithmetic::div_mod::lemma_mod_multiples_vanish(-c, y, k);
    assert(k * (-c) + y == y - c * k) by (nonlinear_arith);
}

/// January 1 of each year from 1970 on falls on the weekday after
/// December 31 of the year before.
#[verifier::spinoff_prover]
#[verifier::rlimit(40)]
pub proof fn lemma_year_start_follows(year: u32)
    requires
        1970 <= year < u32::MAX,
    ensures
        first_day_spec(1, (year + 1) as u32) == (first_day_spec(12, year) + 31) % 7,
{
    let y = year as int;
    lemma_div_step(y - 1968, 4);
    lemma_div_step(y - 1900, 100);
    lemma_div_step(y - 1600, 400);
    lemma_mod_offset(y, 492, 4);
    lemma_mod_offset(y, 19, 100);
    lemma_mod_offset(y, 4, 400);
    assert(days_before_year(y + 1) == days_before_year(y) + 365 + if is_leap(year as nat) {
        1int
    } else {
        0int
    });
    let x = days_before(12, year);
    assert(days_before(1, (year + 1) as u32) == x + 31);
    lemma_mod7_shift(x, 31);
}

/// Each month, from January 1970 on, starts on the weekday that follows
/// the last day of the month before it: the first weekday of the next
/// month is the first weekday of this one plus this month's days, mod 7.
pub proof fn lemma_next_month_starts_after(month: u32, year: u32)
    requires
        1 <= month <= 12,
        1970 <= year,
        month == 12 ==> year < u32::MAX,
    ensures
        ({
            let (m2, y2) = next_month_spec(month, year);
            &&& first_day_spec(month, year) < 7
            &&& first_day_spec(m2, y2) == (first_day_spec(month, year) + days_in_month_spec(
                month,
                year,
            )) % 7
        }),
{
    if month < 12 {
        lemma_month_start_follows(month, year);
    } else {
        lemma_year_start_follows(year);
    }
}

/// The months are named January to December in calendar order, and no two
/// months 1 to 12 share a name.
pub proof fn lemma_month_names(month: u32, other: u32)
    ensures
        1 <= month <= 12 ==> month_name_spec(month) == seq![
            "January"@,
            "February"@,
            "March"@,
            "April"@,
            "May"@,
            "June"@,
            "July"@,
            "August"@,
            "September"@,
            "October"@,
            "November"@,
            "December"@,
        ][month - 1],
        1 <= month <= 12 && 1 <= other <= 12 && month != other ==> month_name_spec(month)
            != month_name_spec(other),
{
    reveal_strlit("January");
    reveal_strlit("February");
    reveal_strlit("March");
    reveal_strlit("April");
    reveal_strlit("May");
    reveal_strlit("June");
    reveal_strlit("July");
    reveal_strlit("August");
    reveal_strlit("September");
    reveal_strlit("October");
    reveal_strlit("November");
    reveal_strlit("December");
    assert("January"@.len() == 7 && "January"@[0] == 'J' && "January"@[2] == 'n');
    assert("February"@.len() == 8 && "February"@[0] == 'F' && "February"@[2] == 'b');
    assert("March"@.len() == 5 && "March"@[0] == 'M' && "March"@[2] == 'r');
    assert("April"@.len() == 5 && "April"@[0] == 'A' && "April"@[2] == 'r');
    assert("May"@.len() == 3 && "May"@[0] == 'M' && "May"@[2] == 'y');
    assert("June"@.len() == 4 && "June"@[0] == 'J' && "June"@[2] == 'n');
    assert("July"@.len() == 4 && "July"@[0] == 'J' && "July"@[2] == 'l');
    assert("August"@.len() == 6 && "August"@[0] == 'A' && "August"@[2] == 'g');
    assert("September"@.len() == 9 && "September"@[0] == 'S' && "September"@[2] == 'p');
    assert("October"@.len() == 7 && "October"@[0] == 'O' && "October"@[2] == 't');
    assert("November"@.len() == 8 && "November"@[0] == 'N' && "November"@[2] == 'v');
    assert("December"@.len() == 8 && "December"@[0] == 'D' && "December"@[2] == 'c');
}

/// 1970 began on a Thursday.
pub proof fn lemma_epoch_starts_thursday()
    ensures
        first_day_spec(1, 1970) == 4,
{
}

/// Going forward one month and then back one returns to the same month.
pub proof fn lemma_previous_undoes_next(month: u32, year: u32)
    requires
        1 <= month <= 12,
        month == 12 ==> year < u32::MAX,
    ensures
        ({
            let (m, y) = next_month_spec(month, year);
            previous_month_spec(m, y) == (month, year)
        }),
{
}

/// Going back one month and then forward one returns to the same month.
pub proof fn lemma_next_undoes_previous(month: u32, year: u32)
    requires
        1 <= month <= 12,
        month == 1 ==> year >= 1,
    ensures
        ({
            let (m, y) = previous_month_spec(month, year);
            next_month_spec(m, y) == (month, year)
        }),
{
}

} // verus!

verus! {

/// Whether a timestamp falls in `month` of `year`.
pub open spec fn in_month(s: Seq<char>, month: u32, year: u32) -> bool {
    match parse_date_spec(s) {
        Some((y, m, _)) => y == year && m == month,
        None => false,
    }
}

/// The day of the month a timestamp names (0 when it names none).
pub open spec fn day_of(s: Seq<char>) -> u32 {
    match parse_date_spec(s) {
        Some((_, _, d)) => d,
        None => 0,
    }
}

impl CalendarService {
    /// Positions, in order, of the timestamps that fall on `day` of
    /// `month` in `year`: one day's group in the month view.
    pub fn transactions_on_day(&self, month: u32, year: u32, day: u32, dates: &Vec<String>) -> (r:
        Vec<usize>)
        ensures
            forall|k: int| 0 <= k < r.len() ==> (#[trigger] r@[k]) < dates.len(),
            forall|k: int, l: int| 0 <= k < l < r.len() ==> r@[k] < r@[l],
            forall|i: int|
                0 <= i < dates.len() ==> (r@.contains(i as usize) <==> parse_date_spec(
                    #[trigger] dates@[i]@,
                ) == Some((year, month, day))),
    {
        let mut r: Vec<usize> = Vec::new();
        let mut i: usize = 0;
        while i < dates.len()
            invariant
                i <= dates.len(),
                forall|k: int| 0 <= k < r.len() ==> (#[trigger] r@[k]) < i,
                forall|k: int, l: int| 0 <= k < l < r.len() ==> r@[k] < r@[l],
                forall|j: int|
                    0 <= j < i ==> (r@.contains(j as usize) <==> parse_date_spec(
                        #[trigger] dates@[j]@,
                    ) == Some((year, month, day))),
            decreases dates.len() - i,
        {
            let p = self.parse_transaction_date(dates[i].as_str());
            let ghost before = r@;
            if p == Some((year, month, day)) {
                r.push(i);
                assert(r@ == before.push(i));
                assert forall|j: int| 0 <= j < i implies (#[trigger] r@.contains(j as usize) <==> before.contains(
                    j as usize,
                )) by {
                    if r@.contains(j as usize) {
                        let k = choose|k: int| 0 <= k < r@.len() && r@[k] == j as usize;
                        if k < before.len() {
                            assert(before[k] == j as usize);
                        }
                    }
                    if before.contains(j as usize) {
                        let k = choose|k: int| 0 <= k < before.len() && before[k] == j as usize;
                        assert(r@[k] == j as usize);
                    }
                }
                assert(r@[r@.len() - 1] == i);
            } else {
                assert(!r@.contains(i)) by {
                    if r@.contains(i) {
                        let k = choose|k: int| 0 <= k < r@.len() && r@[k] == i;
                    }
                }
            }
            i += 1;
        }
        r
    }

    /// The timestamp from which a month's opening balance (the balance at
    /// the end of the previous month) is worked back: the earliest one
    /// that falls in `month` of `year`, that is, the one on the earliest
    /// day of that month, the first listed on ties (list the timestamps
    /// oldest first to get the earliest instant). `None` when no
    /// timestamp falls in that month.
    pub fn starting_transaction(&self, month: u32, year: u32, dates: &Vec<String>) -> (r: Option<
        usize,
    >)
        ensures
            r is None <==> forall|i: int|
                0 <= i < dates.len() ==> !in_month(#[trigger] dates@[i]@, month, year),
            r matches Some(k) ==> k < dates.len() && in_month(dates@[k as int]@, month, year)
                && forall|i: int|
                0 <= i < dates.len() && in_month(#[trigger] dates@[i]@, month, year) ==> (day_of(
                    dates@[i]@,
                ) > day_of(dates@[k as int]@) || (day_of(dates@[i]@) == day_of(dates@[k as int]@)
                    && k <= i)),
    {
        let mut best: Option<usize> = None;
        let mut best_day: u32 = 0;
        let mut i: usize = 0;
        while i < dates.len()
            invariant
                i <= dates.len(),
                best is None <==> forall|j: int|
                    0 <= j < i ==> !in_month(#[trigger] dates@[j]@, month, year),
                best matches Some(k) ==> k < i && in_month(dates@[k as int]@, month, year)
                    && best_day == day_of(dates@[k as int]@) && forall|j: int|
                    0 <= j < i && in_month(#[trigger] dates@[j]@, month, year) ==> (day_of(
                        dates@[j]@,
                    ) > best_day || (day_of(dates@[j]@) == best_day && k <= j)),
            decreases dates.len() - i,
        {
            match self.parse_transaction_date(dates[i].as_str()) {
                Some((y, m, d)) => {
                    if y == year && m == month {
                        match best {
                            None => {
                                best = Some(i);
                                best_day = d;
                            },
                            Some(_) => {
                                if d < best_day {
                                    best = Some(i);
                                    best_day = d;
                                }
                            },
                        }
                    }
                },
                None => {},
            }
            i += 1;
        }
        best
    }
}

} // verus!
