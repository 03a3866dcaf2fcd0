//! Weekly allowances: the configured weekday, which dates are due, which
//! are still owed, and the entries shown for future ones.
use vstd::prelude::*;
use crate::dates::{
    date_key, date_le, date_lt, date_on_or_before, format_ymd, lemma_key_order, lemma_next_date_adjacent,
    lemma_next_date_later, next_date, next_date_spec, valid_date, weekday_from_sunday,
    weekday_spec, ymd_text, days_after, sub_days, Date,
};
use crate::text::{
    contains_spec, contains_text, decimal, lowercase, owned, push_decimal, push_str,
    starts_with_spec, starts_with_text, to_lowercase,
};

verus! {

pub open spec fn day_name_spec(day_of_week: u8) -> Seq<char> {
    if day_of_week == 0 { "Sunday"@ }
    else if day_of_week == 1 { "Monday"@ }
    else if day_of_week == 2 { "Tuesday"@ }
    else if day_of_week == 3 { "Wednesday"@ }
    else if day_of_week == 4 { "Thursday"@ }
    else if day_of_week == 5 { "Friday"@ }
    else if day_of_week == 6 { "Saturday"@ }
    else { "Invalid"@ }
}

/// Name of an allowance weekday (0 = Sunday); "Invalid" past Saturday.
pub fn day_name(day_of_week: u8) -> (r: &'static str)
    ensures
        r@ == day_name_spec(day_of_week),
{
    match day_of_week {
        0 => "Sunday",
        1 => "Monday",
        2 => "Tuesday",
        3 => "Wednesday",
        4 => "Thursday",
        5 => "Friday",
        6 => "Saturday",
        _ => "Invalid",
    }
}

/// A weekday number is 0 (Sunday) to 6 (Saturday).
pub fn is_valid_day_of_week(day: u8) -> (r: bool)
    ensures
        r == (day <= 6),
{
    day <= 6
}

/// The id of an allowance configuration: `allowance::{child_id}::{millis}`.
pub fn generate_id(child_id: &str, epoch_millis: u64) -> (r: String)
    ensures
        r@ == "allowance::"@ + child_id@ + "::"@ + decimal(epoch_millis as nat),
{
    let mut r = owned("allowance::");
    push_str(&mut r, child_id);
    push_str(&mut r, "::");
    push_decimal(&mut r, epoch_millis);
    r
}

/// Why an allowance configuration was refused.
#[derive(Clone, Copy, Debug, PartialEq, Eq, Structural)]
pub enum AllowanceConfigError {
    InvalidDayOfWeek(u8),
    NegativeAmount,
    AmountTooLarge,
}

pub open spec fn allowance_error_message_spec(e: AllowanceConfigError) -> Seq<char> {
    match e {
        AllowanceConfigError::InvalidDayOfWeek(d) => "Invalid day of week: "@ + decimal(d as nat)
            + ". Must be 0-6 (Sunday-Saturday)"@,
        AllowanceConfigError::NegativeAmount => "Allowance amount cannot be negative"@,
        AllowanceConfigError::AmountTooLarge => "Allowance amount is too large"@,
    }
}

impl AllowanceConfigError {
    pub fn message(&self) -> (r: String)
        ensures
            r@ == allowance_error_message_spec(*self),
    {
        match self {
            AllowanceConfigError::InvalidDayOfWeek(d) => {
                let mut r = owned("Invalid day of week: ");
                push_decimal(&mut r, *d as u64);
                push_str(&mut r, ". Must be 0-6 (Sunday-Saturday)");
                r
            },
            AllowanceConfigError::NegativeAmount => owned("Allowance amount cannot be negative"),
            AllowanceConfigError::AmountTooLarge => owned("Allowance amount is too large"),
        }
    }
}

/// The checks on a new allowance configuration, in order: the weekday,
/// then whether the amount is below zero, then whether it is above
/// 1,000,000. (The two amount comparisons are made by the caller.)
pub fn check_allowance_update(day_of_week: u8, amount_negative: bool, amount_too_large: bool) -> (r:
    Result<(), AllowanceConfigError>)
    ensures
        r == (if day_of_week > 6 {
            Err(AllowanceConfigError::InvalidDayOfWeek(day_of_week))
        } else if amount_negative {
            Err(AllowanceConfigError::NegativeAmount)
        } else if amount_too_large {
            Err(AllowanceConfigError::AmountTooLarge)
        } else {
            Ok(())
        }),
{
    if !is_valid_day_of_week(day_of_week) {
        Err(AllowanceConfigError::InvalidDayOfWeek(day_of_week))
    } else if amount_negative {
        Err(AllowanceConfigError::NegativeAmount)
    } else if amount_too_large {
        Err(AllowanceConfigError::AmountTooLarge)
    } else {
        Ok(())
    }
}

/// The dates from `cur` to `end`, day by day, that satisfy `pred`. The walk
/// stops before the last representable date, as the day-by-day loop it
/// describes does.
pub open spec fn walk_days(cur: Date, end: Date, pred: spec_fn(Date) -> bool) -> Seq<Date>
    decreases date_key(end) - date_key(cur),
{
    if !valid_date(cur) || !valid_date(end) || !date_le(cur, end) {
        Seq::empty()
    } else {
        let here = if pred(cur) {
            seq![cur]
        } else {
            Seq::empty()
        };
        match next_date_spec(cur) {
            Some(n) => {
                if next_date_spec(n) is Some && date_le(n, end) {
                    proof {
                        lemma_next_date_later(cur);
                        lemma_key_order(n, end);
                    }
                    here + walk_days(n, end, pred)
                } else {
                    here
                }
            },
            None => here,
        }
    }
}

/// Every date a walk yields is a valid date between its bounds that
/// satisfies the walk's condition, and the dates come in strictly
/// increasing order.
pub proof fn lemma_walk_members(cur: Date, end: Date, pred: spec_fn(Date) -> bool)
    ensures
        forall|k: int|
            0 <= k < walk_days(cur, end, pred).len() ==> {
                let d = #[trigger] walk_days(cur, end, pred)[k];
                valid_date(d) && pred(d) && date_le(cur, d) && date_le(d, end)
            },
        forall|j: int, k: int|
            0 <= j < k < walk_days(cur, end, pred).len() ==> date_lt(
                #[trigger] walk_days(cur, end, pred)[j],
                #[trigger] walk_days(cur, end, pred)[k],
            ),
    decreases date_key(end) - date_key(cur),
{
    if !valid_date(cur) || !valid_date(end) || !date_le(cur, end) {
    } else {
        let w = walk_days(cur, end, pred);
        let here = if pred(cur) {
            seq![cur]
        } else {
            Seq::<Date>::empty()
        };
        lemma_next_date_later(cur);
        match next_date_spec(cur) {
            Some(n) => {
                if next_date_spec(n) is Some && date_le(n, end) {
                    lemma_key_order(n, end);
                    lemma_walk_members(n, end, pred);
                    let rest = walk_days(n, end, pred);
                    assert(w == here + rest);
                    assert forall|k: int| 0 <= k < w.len() implies {
                        let d = #[trigger] w[k];
                        valid_date(d) && pred(d) && date_le(cur, d) && date_le(d, end)
                    } by {
                        if k >= here.len() {
                            assert(w[k] == rest[k - here.len()]);
                        }
                    }
                    assert forall|j: int, k: int| 0 <= j < k < w.len() implies date_lt(
                        #[trigger] w[j],
                        #[trigger] w[k],
                    ) by {
                        if j >= here.len() {
                            assert(w[j] == rest[j - here.len()]);
                            assert(w[k] == rest[k - here.len()]);
                        } else {
                            assert(w[k] == rest[k - here.len()]);
                        }
                    }
                } else {
                    assert(w == here);
                }
            },
            None => {
                assert(w == here);
            },
        }
    }
}

/// A walk misses no date: every valid date between its bounds that
/// satisfies its condition is yielded, unless it is the last
/// representable date.
pub proof fn lemma_walk_complete(cur: Date, end: Date, pred: spec_fn(Date) -> bool, d: Date)
    requires
        valid_date(cur),
        valid_date(end),
        valid_date(d),
        date_le(cur, d),
        date_le(d, end),
        pred(d),
        next_date_spec(d) is Some,
    ensures
        walk_days(cur, end, pred).contains(d),
    decreases date_key(end) - date_key(cur),
{
    let w = walk_days(cur, end, pred);
    lemma_next_date_later(cur);
    if d == cur {
        assert(w[0] == d);
    } else {
        lemma_next_date_adjacent(cur, d);
        let n = next_date_spec(cur)->0;
        lemma_next_date_later(n);
        if n != d {
            lemma_next_date_adjacent(n, d);
        }
        assert(next_date_spec(n) is Some);
        lemma_key_order(n, end);
        lemma_walk_complete(n, end, pred, d);
        let here = if pred(cur) {
            seq![cur]
        } else {
            Seq::<Date>::empty()
        };
        assert(w == here + walk_days(n, end, pred));
        let k = choose|k: int| 0 <= k < walk_days(n, end, pred).len() && walk_days(n, end, pred)[k] == d;
        assert(w[here.len() + k] == d);
    }
}

/// Future allowance days: after `today` and on the allowance weekday.
pub open spec fn future_allowance_day(today: Date, day_of_week: u8) -> spec_fn(Date) -> bool {
    |d: Date| date_lt(today, d) && weekday_spec(d) == day_of_week
}

/// The allowance days after `today` between `start` and `end`, in order.
pub fn future_allowance_dates(day_of_week: u8, start: Date, end: Date, today: Date) -> (r: Vec<
    Date,
>)
    requires
        valid_date(start),
        valid_date(end),
    ensures
        r@ == walk_days(start, end, future_allowance_day(today, day_of_week)),
{
    let ghost pred = future_allowance_day(today, day_of_week);
    let mut out: Vec<Date> = Vec::new();
    let mut current = start;
    while date_on_or_before(&current, &end)
        invariant_except_break
            valid_date(current),
            valid_date(end),
            pred == future_allowance_day(today, day_of_week),
            walk_days(start, end, pred) == out@ + walk_days(current, end, pred),
        ensures
            walk_days(start, end, pred) == out@,
        decreases (if date_le(current, end) {
            date_key(end) - date_key(current) + 1
        } else {
            0
        }),
    {
        proof {
            lemma_key_order(current, end);
        }
        let ghost before = out@;
        let ghost here = if pred(current) {
            seq![current]
        } else {
            Seq::<Date>::empty()
        };
        let after_today = date_on_or_before(&today, &current) && today != current;
        if after_today && weekday_from_sunday(current) == day_of_week as u32 {
            out.push(current);
        }
        assert(out@ =~= before + here);
        match next_date(current) {
            None => {
                assert(walk_days(current, end, pred) == here);
                break;
            },
            Some(n) => {
                match next_date(n) {
                    None => {
                        assert(walk_days(current, end, pred) == here);
                        break;
                    },
                    Some(_) => {},
                }
                proof {
                    lemma_next_date_later(current);
                    if !date_le(n, end) {
                        assert(walk_days(n, end, pred) =~= Seq::<Date>::empty());
                    }
                }
                assert(walk_days(current, end, pred) == here + walk_days(n, end, pred));
                assert(before + (here + walk_days(n, end, pred)) =~= out@ + walk_days(
                    n,
                    end,
                    pred,
                ));
                current = n;
            },
        }
    }
    out
}

/// The future allowance days between `start` and `end` are exactly the
/// allowance weekdays in that range that come after `today` (the last
/// representable date aside).
pub proof fn lemma_future_allowance_days(day_of_week: u8, start: Date, end: Date, today: Date, d: Date)
    requires
        valid_date(start),
        valid_date(end),
    ensures
        walk_days(start, end, future_allowance_day(today, day_of_week)).contains(d) ==> {
            &&& valid_date(d)
            &&& date_le(start, d) && date_le(d, end)
            &&& date_lt(today, d)
            &&& weekday_spec(d) == day_of_week
        },
        (valid_date(d) && date_le(start, d) && date_le(d, end) && date_lt(today, d) && weekday_spec(
            d,
        ) == day_of_week && next_date_spec(d) is Some) ==> walk_days(
            start,
            end,
            future_allowance_day(today, day_of_week),
        ).contains(d),
{
    let pred = future_allowance_day(today, day_of_week);
    lemma_walk_members(start, end, pred);
    if valid_date(d) && date_le(start, d) && date_le(d, end) && date_lt(today, d) && weekday_spec(
        d,
    ) == day_of_week && next_date_spec(d) is Some {
        lemma_walk_complete(start, end, pred, d);
    }
}

/// The pending allowance days are exactly the allowance weekdays from
/// `from` up to `to` and no later than `today` on which no allowance is
/// recorded (the last representable date aside). In particular, once an
/// allowance is recorded for a day, that day is no longer pending.
pub proof fn lemma_pending_allowance_days(
    day_of_week: u8,
    from: Date,
    to: Date,
    today: Date,
    txs: Seq<AllowanceEvidence>,
    d: Date,
)
    requires
        valid_date(from),
        valid_date(to),
        valid_date(today),
    ensures
        walk_days(from, earlier(to, today), owed_allowance_day(day_of_week, txs)).contains(d) ==> {
            &&& valid_date(d)
            &&& date_le(from, d) && date_le(d, to) && date_le(d, today)
            &&& weekday_spec(d) == day_of_week
            &&& !has_allowance_spec(d, txs)
        },
        (valid_date(d) && date_le(from, d) && date_le(d, to) && date_le(d, today) && weekday_spec(d)
            == day_of_week && !has_allowance_spec(d, txs) && next_date_spec(d) is Some)
            ==> walk_days(from, earlier(to, today), owed_allowance_day(day_of_week, txs)).contains(d),
{
    let pred = owed_allowance_day(day_of_week, txs);
    let end = earlier(to, today);
    lemma_walk_members(from, end, pred);
    if valid_date(d) && date_le(from, d) && date_le(d, to) && date_le(d, today) && weekday_spec(d)
        == day_of_week && !has_allowance_spec(d, txs) && next_date_spec(d) is Some {
        lemma_walk_complete(from, end, pred, d);
    }
}

/// A future allowance as listed: its id, its timestamp at noon UTC and
/// its description.
#[derive(Clone, Debug)]
pub struct FutureAllowance {
    pub id: String,
    pub date: String,
    pub description: String,
}

pub open spec fn future_allowance_id(child_id: Seq<char>, d: Date) -> Seq<char> {
    "future-allowance::"@ + child_id + "::"@ + ymd_text(d)
}

pub open spec fn noon_timestamp(d: Date) -> Seq<char> {
    ymd_text(d) + "T12:00:00.000Z"@
}

/// The future allowances of a child between `start` and `end`: one per
/// allowance day after `today`, in date order.
pub fn future_allowances(child_id: &str, day_of_week: u8, start: Date, end: Date, today: Date) -> (r:
    Vec<FutureAllowance>)
    requires
        valid_date(start),
        valid_date(end),
    ensures
        r.len() == walk_days(start, end, future_allowance_day(today, day_of_week)).len(),
        forall|i: int|
            0 <= i < r.len() ==> {
                let d = walk_days(start, end, future_allowance_day(today, day_of_week))[i];
                &&& (#[trigger] r@[i]).id@ == future_allowance_id(child_id@, d)
                &&& r@[i].date@ == noon_timestamp(d)
                &&& r@[i].description@ == "Weekly allowance"@
            },
{
    let dates = future_allowance_dates(day_of_week, start, end, today);
    proof {
        lemma_walk_members(start, end, future_allowance_day(today, day_of_week));
    }
    let mut out: Vec<FutureAllowance> = Vec::new();
    let mut i: usize = 0;
    while i < dates.len()
        invariant
            i <= dates.len(),
            out.len() == i,
            dates@ == walk_days(start, end, future_allowance_day(today, day_of_week)),
            forall|k: int| 0 <= k < dates.len() ==> valid_date(#[trigger] dates@[k]),
            forall|k: int|
                0 <= k < i ==> {
                    &&& (#[trigger] out@[k]).id@ == future_allowance_id(child_id@, dates@[k])
                    &&& out@[k].date@ == noon_timestamp(dates@[k])
                    &&& out@[k].description@ == "Weekly allowance"@
                },
        decreases dates.len() - i,
    {
        let d = dates[i];
        let ymd = format_ymd(d);
        let mut id = owned("future-allowance::");
        push_str(&mut id, child_id);
        push_str(&mut id, "::");
        push_str(&mut id, ymd.as_str());
        let date = noon_timestamp_of(d);
        out.push(FutureAllowance { id, date, description: owned("Weekly allowance") });
        i += 1;
    }
    out
}

/// Where the search for unpaid allowances starts: a week before `today`,
/// or `today` itself when no date is a week earlier.
pub fn pending_window_start(today: Date) -> (r: Date)
    requires
        valid_date(today),
    ensures
        valid_date(r),
        days_after(r, 7) == Some(today) || (r == today && forall|p: Date|
            valid_date(p) ==> #[trigger] days_after(p, 7) != Some(today)),
{
    match sub_days(today, 7) {
        Some(p) => p,
        None => today,
    }
}

/// The timestamp of an allowance paid for a day: noon UTC of that day,
/// written in UTC-5.
pub open spec fn paid_allowance_timestamp(d: Date) -> Seq<char> {
    ymd_text(d) + "T07:00:00-05:00"@
}

/// The timestamp and the description of the transaction that pays the
/// allowance of a day.
pub fn paid_allowance_fields(d: Date) -> (r: (String, String))
    requires
        valid_date(d),
    ensures
        r.0@ == paid_allowance_timestamp(d),
        r.1@ == "Weekly allowance"@,
{
    let mut date = format_ymd(d);
    push_str(&mut date, "T07:00:00-05:00");
    (date, owned("Weekly allowance"))
}

/// The noon-UTC timestamp of a day (see `noon_timestamp`).
pub fn noon_timestamp_of(d: Date) -> (r: String)
    requires
        valid_date(d),
    ensures
        r@ == noon_timestamp(d),
{
    let mut date = format_ymd(d);
    push_str(&mut date, "T12:00:00.000Z");
    date
}

/// What is known of a recorded transaction when deciding whether an
/// allowance was already paid on a day: its timestamp, its description,
/// and whether its amount is above zero.
#[derive(Clone, Debug)]
pub struct AllowanceEvidence {
    pub date: String,
    pub description: String,
    pub is_positive: bool,
}

/// A transaction counts as that day's allowance when its timestamp starts
/// with the day's `YYYY-MM-DD`, its amount is above zero and its
/// lowercased description mentions "allowance" or "weekly".
pub open spec fn is_allowance_on(t: AllowanceEvidence, d: Date) -> bool {
    &&& starts_with_spec(t.date@, ymd_text(d))
    &&& t.is_positive
    &&& (contains_spec(lowercase(t.description@), "allowance"@) || contains_spec(
        lowercase(t.description@),
        "weekly"@,
    ))
}

pub open spec fn has_allowance_spec(d: Date, txs: Seq<AllowanceEvidence>) -> bool {
    exists|i: int| 0 <= i < txs.len() && is_allowance_on(#[trigger] txs[i], d)
}

/// Whether an allowance was already recorded on `date`.
pub fn has_allowance_for_date(date: Date, transactions: &Vec<AllowanceEvidence>) -> (r: bool)
    requires
        valid_date(date),
    ensures
        r == has_allowance_spec(date, transactions@),
{
    let prefix = format_ymd(date);
    let mut i: usize = 0;
    while i < transactions.len()
        invariant
            i <= transactions.len(),
            prefix@ == ymd_text(date),
            forall|k: int| 0 <= k < i ==> !is_allowance_on(#[trigger] transactions@[k], date),
        decreases transactions.len() - i,
    {
        let t = &transactions[i];
        if starts_with_text(t.date.as_str(), prefix.as_str()) && t.is_positive {
            let lower = to_lowercase(t.description.as_str());
            if contains_text(lower.as_str(), "allowance") || contains_text(lower.as_str(), "weekly") {
                assert(is_allowance_on(transactions@[i as int], date));
                return true;
            }
        }
        i += 1;
    }
    false
}

/// Allowance days still owed: on the allowance weekday and without a
/// recorded allowance.
pub open spec fn owed_allowance_day(day_of_week: u8, txs: Seq<AllowanceEvidence>) -> spec_fn(
    Date,
) -> bool {
    |d: Date| weekday_spec(d) == day_of_week && !has_allowance_spec(d, txs)
}

/// The earlier of two dates.
pub open spec fn earlier(a: Date, b: Date) -> Date {
    if date_le(a, b) {
        a
    } else {
        b
    }
}

/// The allowance days from `from` up to `to`, but no later than `today`,
/// on which no allowance was recorded yet, in date order.
pub fn pending_allowance_dates(
    day_of_week: u8,
    from: Date,
    to: Date,
    today: Date,
    transactions: &Vec<AllowanceEvidence>,
) -> (r: Vec<Date>)
    requires
        valid_date(from),
        valid_date(to),
        valid_date(today),
    ensures
        r@ == walk_days(from, earlier(to, today), owed_allowance_day(day_of_week, transactions@)),
{
    let end = if date_on_or_before(&to, &today) {
        to
    } else {
        today
    };
    let ghost pred = owed_allowance_day(day_of_week, transactions@);
    let mut out: Vec<Date> = Vec::new();
    let mut current = from;
    while date_on_or_before(&current, &end)
        invariant_except_break
            valid_date(current),
            valid_date(end),
            end == earlier(to, today),
            pred == owed_allowance_day(day_of_week, transactions@),
            walk_days(from, end, pred) == out@ + walk_days(current, end, pred),
        ensures
            walk_days(from, end, pred) == out@,
        decreases (if date_le(current, end) {
            date_key(end) - date_key(current) + 1
        } else {
            0
        }),
    {
        proof {
            lemma_key_order(current, end);
        }
        let ghost before = out@;
        let ghost here = if pred(current) {
            seq![current]
        } else {
            Seq::<Date>::empty()
        };
        if weekday_from_sunday(current) == day_of_week as u32 && !has_allowance_for_date(
            current,
            transactions,
        ) {
            out.push(current);
        }
        assert(out@ =~= before + here);
        match next_date(current) {
            None => {
                assert(walk_days(current, end, pred) == here);
                break;
            },
            Some(n) => {
                match next_date(n) {
                    None => {
                        assert(walk_days(current, end, pred) == here);
                        break;
                    },
                    Some(_) => {},
                }
                proof {
                    lemma_next_date_later(current);
                    if !date_le(n, end) {
                        assert(walk_days(n, end, pred) =~= Seq::<Date>::empty());
                    }
                }
                assert(walk_days(current, end, pred) == here + walk_days(n, end, pred));
                assert(before + (here + walk_days(n, end, pred)) =~= out@ + walk_days(
                    n,
                    end,
                    pred,
                ));
                current = n;
            },
        }
    }
    out
}

} // verus!
