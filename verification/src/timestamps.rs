//! Timestamps of stored transactions: turning a date into a timestamp and
//! moving a timestamp forward, second by second, until no stored
//! transaction has it.
use vstd::prelude::*;
use chrono::{DateTime, TimeDelta};
use crate::dates::ymd_text;
use crate::mappers::{chrono_ymd_parse, parse_ymd};
use crate::ordering::{order_chars, text_lt, views};
use crate::storage::CsvTransactionRepository;
use crate::text::{chars_of, owned, push_str, same_text, string_from_chars, utf8_len};
use crate::dates::format_ymd;

verus! {

/// Whether chrono's `DateTime::parse_from_rfc3339` accepts a text.
pub uninterp spec fn rfc3339_valid(s: Seq<char>) -> bool;

/// The instant `secs` seconds after the RFC 3339 timestamp `s`, written
/// as chrono's `%Y-%m-%dT%H:%M:%S%z` writes it (offset without colon), in
/// the timestamp's own offset; `None` when `s` does not parse or the
/// instant is out of chrono's range.
pub uninterp spec fn shifted_timestamp(s: Seq<char>, secs: nat) -> Option<Seq<char>>;

/// chrono's `DateTime::parse_from_rfc3339`, asked only whether it
/// succeeds. Claimed: the answer is `rfc3339_valid(s)`.
#[verifier::external_body]
fn parses_as_rfc3339(s: &str) -> (r: bool)
    ensures
        r == rfc3339_valid(s@),
{
    DateTime::parse_from_rfc3339(s).is_ok()
}

/// chrono's `DateTime::parse_from_rfc3339`, then `checked_add_signed` of
/// `secs` seconds, then `format("%Y-%m-%dT%H:%M:%S%z")`. Claimed: the
/// result is `shifted_timestamp(s, secs)`, and it is present exactly when
/// the text parses: a parsed timestamp has a four-digit year, so moving it
/// forward by at most `u32::MAX` seconds (about 136 years) stays within
/// chrono's range.
#[verifier::external_body]
fn plus_seconds(s: &str, secs: u32) -> (r: Option<String>)
    ensures
        match r {
            Some(t) => shifted_timestamp(s@, secs as nat) == Some(t@),
            None => shifted_timestamp(s@, secs as nat) is None,
        },
        r is Some <==> rfc3339_valid(s@),
{
    match DateTime::parse_from_rfc3339(s) {
        Ok(dt) => match dt.checked_add_signed(TimeDelta::seconds(secs as i64)) {
            Some(t) => Some(t.format("%Y-%m-%dT%H:%M:%S%z").to_string()),
            None => None,
        },
        Err(_) => None,
    }
}

/// The position of the offset sign in a timestamp: the last `+`, or
/// failing that the last `-`.
pub open spec fn offset_start(s: Seq<char>) -> Option<int> {
    if exists|i: int| 0 <= i < s.len() && s[i] == '+' {
        Some(choose|i: int| 0 <= i < s.len() && s[i] == '+' && forall|j: int| i < j < s.len() ==> s[j] != '+')
    } else if exists|i: int| 0 <= i < s.len() && s[i] == '-' {
        Some(choose|i: int| 0 <= i < s.len() && s[i] == '-' && forall|j: int| i < j < s.len() ==> s[j] != '-')
    } else {
        None
    }
}

/// A timestamp whose offset was written without a colon (`-0500`) with
/// the colon put back (`-05:00`), so that it reads as RFC 3339. Only a
/// timestamp with a `T` and more than five bytes is touched, and only
/// when its offset part has five characters and no colon.
pub open spec fn with_offset_colon(s: Seq<char>) -> Seq<char> {
    if s.contains('T') && utf8_len(s) > 5 {
        match offset_start(s) {
            Some(k) => {
                let tz = s.skip(k);
                if tz.len() == 5 && !tz.contains(':') {
                    s.take(k + 3) + seq![':'] + s.skip(k + 3)
                } else {
                    s
                }
            },
            None => s,
        }
    } else {
        s
    }
}

/// Why a timestamp could not be stored.
#[derive(Clone, Copy, Debug, PartialEq, Eq, Structural)]
pub enum TimestampError {
    /// The timestamp does not read as RFC 3339.
    Unparseable,
    /// Moving it forward left chrono's range.
    OutOfRange,
}

/// Trying the timestamp `k`, `k + 1`, ... seconds after `p` (up to a day
/// of seconds): the first one no stored transaction has; `base` itself
/// when every one is taken.
pub open spec fn resolve_from(base: Seq<char>, p: Seq<char>, taken: Seq<Seq<char>>, k: nat) -> Result<
    Seq<char>,
    TimestampError,
>
    decreases 86400 - k,
{
    if k >= 86400 {
        Ok(base)
    } else {
        match shifted_timestamp(p, k) {
            None => Err(
                if k == 0 {
                    TimestampError::Unparseable
                } else {
                    TimestampError::OutOfRange
                },
            ),
            Some(t) => if taken.contains(t) {
                resolve_from(base, p, taken, k + 1)
            } else {
                Ok(t)
            },
        }
    }
}

pub open spec fn resolve_spec(base: Seq<char>, taken: Seq<Seq<char>>) -> Result<
    Seq<char>,
    TimestampError,
> {
    resolve_from(base, with_offset_colon(base), taken, 0)
}

/// The timestamp a new transaction is stored under: an RFC 3339 one moved
/// off any taken one; a `YYYY-MM-DD` date taken at midnight in UTC-5
/// first; anything else as it is.
pub open spec fn normalize_spec(date: Seq<char>, taken: Seq<Seq<char>>) -> Result<
    Seq<char>,
    TimestampError,
> {
    if rfc3339_valid(date) {
        resolve_spec(date, taken)
    } else {
        match chrono_ymd_parse(date) {
            Some((y, m, d)) => resolve_spec(
                ymd_text(crate::dates::Date { year: y, month: m, day: d }) + "T00:00:00-0500"@,
                taken,
            ),
            None => Ok(date),
        }
    }
}

/// A resolved timestamp is free: no stored transaction has it, unless all
/// of a day's seconds were taken and the base timestamp is given back.
pub proof fn lemma_resolved_timestamp_is_free(
    base: Seq<char>,
    p: Seq<char>,
    taken: Seq<Seq<char>>,
    k: nat,
)
    ensures
        resolve_from(base, p, taken, k) matches Ok(t) ==> (t == base || !taken.contains(t)),
    decreases 86400 - k,
{
    if k < 86400 {
        if let Some(t) = shifted_timestamp(p, k) {
            if taken.contains(t) {
                lemma_resolved_timestamp_is_free(base, p, taken, k + 1);
            }
        }
    }
}

proof fn lemma_push_contains(s: Seq<char>, x: char, y: char)
    ensures
        s.push(x).contains(y) == (s.contains(y) || x == y),
{
    if s.push(x).contains(y) {
        let i = choose|i: int| 0 <= i < s.push(x).len() && s.push(x)[i] == y;
        if i < s.len() {
            assert(s[i] == y);
        }
    }
    if s.contains(y) {
        let i = choose|i: int| 0 <= i < s.len() && s[i] == y;
        assert(s.push(x)[i] == y);
    }
    if x == y {
        assert(s.push(x)[s.len() as int] == y);
    }
}

fn contains_text(list: &Vec<String>, t: &String) -> (r: bool)
    ensures
        r == views(list@).contains(t@),
{
    let mut i: usize = 0;
    while i < list.len()
        invariant
            i <= list.len(),
            forall|j: int| 0 <= j < i ==> list@[j]@ != t@,
        decreases list.len() - i,
    {
        if same_text(&list[i], t) {
            assert(views(list@)[i as int] == t@);
            return true;
        }
        i += 1;
    }
    assert(!views(list@).contains(t@)) by {
        if views(list@).contains(t@) {
            let j = choose|j: int| 0 <= j < views(list@).len() && views(list@)[j] == t@;
            assert(list@[j]@ == t@);
        }
    }
    false
}

/// Puts back the colon of a timestamp's offset (see `with_offset_colon`).
pub fn restore_offset_colon(ts: &str) -> (r: String)
    ensures
        r@ == with_offset_colon(ts@),
{
    let v = chars_of(ts);
    let mut has_t = false;
    let mut last_plus: Option<usize> = None;
    let mut last_minus: Option<usize> = None;
    let mut i: usize = 0;
    while i < v.len()
        invariant
            i <= v.len(),
            v@ == ts@,
            has_t == v@.take(i as int).contains('T'),
            match last_plus {
                Some(k) => k < i && v@[k as int] == '+' && forall|j: int| k < j < i ==> v@[j] != '+',
                None => forall|j: int| 0 <= j < i ==> v@[j] != '+',
            },
            match last_minus {
                Some(k) => k < i && v@[k as int] == '-' && forall|j: int| k < j < i ==> v@[j] != '-',
                None => forall|j: int| 0 <= j < i ==> v@[j] != '-',
            },
        decreases v.len() - i,
    {
        assert(v@.take(i + 1) =~= v@.take(i as int).push(v@[i as int]));
        proof {
            lemma_push_contains(v@.take(i as int), v@[i as int], 'T');
        }
        if v[i] == 'T' {
            has_t = true;
        }
        if v[i] == '+' {
            last_plus = Some(i);
        }
        if v[i] == '-' {
            last_minus = Some(i);
        }
        i += 1;
    }
    assert(v@.take(i as int) =~= v@);
    let ghost s = ts@;
    if !(has_t && ts.len() > 5) {
        return owned(ts);
    }
    let start = match last_plus {
        Some(k) => {
            assert(exists|i: int| 0 <= i < s.len() && s[i] == '+');
            let ghost c = offset_start(s)->0;
            assert(c == k) by {
                if c < k {
                    assert(s[k as int] == '+');
                } else if c > k {
                    assert(s[c] == '+');
                }
            }
            k
        },
        None => match last_minus {
            Some(k) => {
                assert(!exists|i: int| 0 <= i < s.len() && s[i] == '+');
                assert(exists|i: int| 0 <= i < s.len() && s[i] == '-');
                let ghost c = offset_start(s)->0;
                assert(c == k) by {
                    if c < k {
                        assert(s[k as int] == '-');
                    } else if c > k {
                        assert(s[c] == '-');
                    }
                }
                k
            },
            None => {
                assert(!exists|i: int| 0 <= i < s.len() && s[i] == '+');
                assert(!exists|i: int| 0 <= i < s.len() && s[i] == '-');
                return owned(ts);
            },
        },
    };
    let tz_len = v.len() - start;
    let mut colon = false;
    let mut j = start;
    while j < v.len()
        invariant
            start <= j <= v.len(),
            colon == v@.subrange(start as int, j as int).contains(':'),
        decreases v.len() - j,
    {
        assert(v@.subrange(start as int, j + 1) =~= v@.subrange(start as int, j as int).push(
            v@[j as int],
        ));
        proof {
            lemma_push_contains(v@.subrange(start as int, j as int), v@[j as int], ':');
        }
        if v[j] == ':' {
            colon = true;
        }
        j += 1;
    }
    assert(v@.subrange(start as int, v.len() as int) =~= s.skip(start as int));
    if tz_len == 5 && !colon {
        let mut out: Vec<char> = Vec::new();
        let mut k: usize = 0;
        while k < v.len()
            invariant
                k <= v.len(),
                start + 5 == v.len(),
                k <= start + 3 ==> out@ == v@.take(k as int),
                k > start + 3 ==> out@ == v@.take(start + 3) + seq![':'] + v@.subrange(
                    start + 3,
                    k as int,
                ),
            decreases v.len() - k,
        {
            if k == start + 3 {
                out.push(':');
                assert(out@ == v@.take(k as int) + seq![':']);
            }
            out.push(v[k]);
            proof {
                if k + 1 <= start + 3 {
                    assert(v@.take(k + 1) =~= v@.take(k as int).push(v@[k as int]));
                } else if k == start + 3 {
                    assert(v@.take(start + 3) + seq![':'] + v@.subrange(start + 3, k + 1) =~= v@.take(
                        k as int,
                    ) + seq![':'] + seq![v@[k as int]]);
                } else {
                    assert(v@.take(start + 3) + seq![':'] + v@.subrange(start + 3, k + 1) =~= (
                    v@.take(start + 3) + seq![':'] + v@.subrange(start + 3, k as int)).push(
                        v@[k as int],
                    ));
                }
            }
            k += 1;
        }
        assert(v@.subrange(start + 3, v.len() as int) =~= s.skip(start + 3));
        string_from_chars(&out)
    } else {
        owned(ts)
    }
}

impl CsvTransactionRepository {
    /// Moves a timestamp forward one second at a time, up to a day, until
    /// no stored transaction has it (`existing_dates` are their
    /// timestamps); gives back `base_timestamp` when all are taken. It fails
    /// only when the timestamp does not parse.
    pub fn resolve_timestamp_conflict(&self, base_timestamp: &str, existing_dates: &Vec<String>) -> (r:
        Result<String, TimestampError>)
        ensures
            r is Err <==> !rfc3339_valid(with_offset_colon(base_timestamp@)),
            r is Err ==> r == Err::<String, TimestampError>(TimestampError::Unparseable),
            match r {
                Ok(t) => resolve_spec(base_timestamp@, views(existing_dates@)) == Ok::<
                    Seq<char>,
                    TimestampError,
                >(t@),
                Err(e) => resolve_spec(base_timestamp@, views(existing_dates@)) == Err::<
                    Seq<char>,
                    TimestampError,
                >(e),
            },
    {
        let p = restore_offset_colon(base_timestamp);
        let ghost taken = views(existing_dates@);
        let mut attempt: u32 = 0;
        while attempt < 86400
            invariant
                attempt <= 86400,
                p@ == with_offset_colon(base_timestamp@),
                taken == views(existing_dates@),
                resolve_spec(base_timestamp@, taken) == resolve_from(
                    base_timestamp@,
                    p@,
                    taken,
                    attempt as nat,
                ),
                attempt > 0 ==> rfc3339_valid(p@),
            decreases 86400 - attempt,
        {
            match plus_seconds(p.as_str(), attempt) {
                None => {
                    if attempt == 0 {
                        return Err(TimestampError::Unparseable);
                    } else {
                        return Err(TimestampError::OutOfRange);
                    }
                },
                Some(t) => {
                    if !contains_text(existing_dates, &t) {
                        return Ok(t);
                    }
                },
            }
            attempt += 1;
        }
        Ok(owned(base_timestamp))
    }

    /// The timestamp a new transaction is stored under (see
    /// `normalize_spec`).
    pub fn normalize_transaction_date(&self, date: &str, existing_dates: &Vec<String>) -> (r: Result<
        String,
        TimestampError,
    >)
        ensures
            match r {
                Ok(t) => normalize_spec(date@, views(existing_dates@)) == Ok::<
                    Seq<char>,
                    TimestampError,
                >(t@),
                Err(e) => normalize_spec(date@, views(existing_dates@)) == Err::<
                    Seq<char>,
                    TimestampError,
                >(e),
            },
    {
        if parses_as_rfc3339(date) {
            return self.resolve_timestamp_conflict(date, existing_dates);
        }
        match parse_ymd(date) {
            Some(d) => {
                let mut base = format_ymd(d);
                push_str(&mut base, "T00:00:00-0500");
                self.resolve_timestamp_conflict(base.as_str(), existing_dates)
            },
            None => Ok(owned(date)),
        }
    }
}


/// The instant chrono reads from an RFC 3339 text: seconds since the
/// epoch and the nanoseconds within that second.
pub uninterp spec fn rfc3339_instant(s: Seq<char>) -> Option<(i64, u32)>;

/// chrono's `DateTime::parse_from_rfc3339`, then `timestamp()` and
/// `timestamp_subsec_nanos()`. Claimed: the result is
/// `rfc3339_instant(s)`, present exactly when the text parses.
#[verifier::external_body]
fn instant_of(s: &str) -> (r: Option<(i64, u32)>)
    ensures
        r == rfc3339_instant(s@),
        r is Some <==> rfc3339_valid(s@),
{
    match DateTime::parse_from_rfc3339(s) {
        Ok(dt) => Some((dt.timestamp(), dt.timestamp_subsec_nanos())),
        Err(_) => None,
    }
}

/// How two stored timestamps compare: as instants when both read as
/// RFC 3339 (whatever their offsets), otherwise as texts.
pub open spec fn date_order_spec(a: Seq<char>, b: Seq<char>) -> int {
    match (rfc3339_instant(a), rfc3339_instant(b)) {
        (Some(x), Some(y)) => if x.0 < y.0 || (x.0 == y.0 && x.1 < y.1) {
            -1
        } else if x.0 > y.0 || (x.0 == y.0 && x.1 > y.1) {
            1
        } else {
            0
        },
        _ => if text_lt(a, b) {
            -1
        } else if text_lt(b, a) {
            1
        } else {
            0
        },
    }
}

impl CsvTransactionRepository {
    /// -1, 0 or 1 as `date1` is before, at or after `date2` (see
    /// `date_order_spec`).
    pub fn compare_dates(&self, date1: &str, date2: &str) -> (r: i32)
        ensures
            r == date_order_spec(date1@, date2@),
    {
        match (instant_of(date1), instant_of(date2)) {
            (Some(x), Some(y)) => {
                if x.0 < y.0 || (x.0 == y.0 && x.1 < y.1) {
                    -1
                } else if x.0 > y.0 || (x.0 == y.0 && x.1 > y.1) {
                    1
                } else {
                    0
                }
            },
            _ => {
                let a = chars_of(date1);
                let b = chars_of(date2);
                let o = order_chars(&a, &b);
                if o == -1 {
                    -1
                } else if o == 1 {
                    1
                } else {
                    0
                }
            },
        }
    }

    /// The positions, in order, of the timestamps at or after `from`
    /// (`at_or_after`) or before it (otherwise).
    pub fn select_by_date(&self, dates: &Vec<String>, from: &str, at_or_after: bool) -> (r: Vec<usize>)
        ensures
            forall|k: int| 0 <= k < r.len() ==> (#[trigger] r@[k]) < dates.len(),
            forall|k: int, l: int| 0 <= k < l < r.len() ==> r@[k] < r@[l],
            forall|i: int|
                0 <= i < dates.len() ==> (r@.contains(i as usize) <==> (if at_or_after {
                    date_order_spec(#[trigger] dates@[i]@, from@) >= 0
                } else {
                    date_order_spec(dates@[i]@, from@) < 0
                })),
    {
        let mut r: Vec<usize> = Vec::new();
        let mut i: usize = 0;
        while i < dates.len()
            invariant
                i <= dates.len(),
                forall|k: int| 0 <= k < r.len() ==> (#[trigger] r@[k]) < i,
                forall|k: int, l: int| 0 <= k < l < r.len() ==> r@[k] < r@[l],
                forall|j: int|
                    0 <= j < dates.len() ==> (r@.contains(j as usize) <==> (j < i && (if at_or_after {
                        date_order_spec(#[trigger] dates@[j]@, from@) >= 0
                    } else {
                        date_order_spec(dates@[j]@, from@) < 0
                    }))),
            decreases dates.len() - i,
        {
            let c = self.compare_dates(dates[i].as_str(), from);
            let keep = if at_or_after {
                c >= 0
            } else {
                c < 0
            };
            let ghost before = r@;
            if keep {
                r.push(i);
            }
            assert forall|j: int| 0 <= j < dates.len() implies (r@.contains(j as usize) <==> (j < i
                + 1 && (if at_or_after {
                date_order_spec(#[trigger] dates@[j]@, from@) >= 0
            } else {
                date_order_spec(dates@[j]@, from@) < 0
            }))) by {
                if keep {
                    if r@.contains(j as usize) {
                        let k = choose|k: int| 0 <= k < r@.len() && r@[k] == j as usize;
                        if k < before.len() {
                            assert(before[k] == j as usize);
                            assert(before.contains(j as usize));
                        }
                    }
                    if j == i {
                        assert(r@[before.len() as int] == i);
                    } else if j < i && before.contains(j as usize) {
                        let k = choose|k: int| 0 <= k < before.len() && before[k] == j as usize;
                        assert(r@[k] == j as usize);
                    }
                } else {
                    if j == i {
                        if r@.contains(j as usize) {
                            let k = choose|k: int| 0 <= k < r@.len() && r@[k] == j as usize;
                            assert(r@[k] < i);
                        }
                    }
                }
            }
            i += 1;
        }
        r
    }
}


/// The offset from UTC, in seconds, of an RFC 3339 text as chrono reads it.
pub uninterp spec fn rfc3339_offset(s: Seq<char>) -> Option<i32>;

/// chrono's `DateTime::parse_from_rfc3339`, then the offset's
/// `local_minus_utc()`. Claimed: the result is `rfc3339_offset(s)`,
/// present exactly when the text parses, and strictly within a day.
#[verifier::external_body]
fn offset_of(s: &str) -> (r: Option<i32>)
    ensures
        r == rfc3339_offset(s@),
        r is Some <==> rfc3339_valid(s@),
        r matches Some(o) ==> -86400 < o < 86400,
{
    match DateTime::parse_from_rfc3339(s) {
        Ok(dt) => Some(dt.offset().local_minus_utc()),
        Err(_) => None,
    }
}

/// The instant a transaction date names, with the offset it is read in:
/// an RFC 3339 timestamp as it is; a `YYYY-MM-DD` date at noon in UTC-5.
/// Seconds since the epoch, nanoseconds, offset in seconds.
pub open spec fn transaction_instant(date: Seq<char>) -> Option<(int, int, int)> {
    match (rfc3339_instant(date), rfc3339_offset(date)) {
        (Some(i), Some(o)) => Some((i.0 as int, i.1 as int, o as int)),
        _ => match chrono_ymd_parse(date) {
            Some((y, m, d)) => Some(
                (
                    crate::dates::day_number(crate::dates::Date { year: y, month: m, day: d }) * 86400
                        + 17 * 3600,
                    0,
                    -18000,
                ),
            ),
            None => None,
        },
    }
}

/// `(s1, n1)` is an earlier instant than `(s2, n2)`.
pub open spec fn instant_before(s1: int, n1: int, s2: int, n2: int) -> bool {
    s1 < s2 || (s1 == s2 && n1 < n2)
}

/// Midnight starting the day after `now`, as the clock in `offset` reads
/// days, in seconds since the epoch.
pub open spec fn start_of_tomorrow(now_secs: int, offset: int) -> int {
    ((now_secs + offset) / 86400 + 1) * 86400 - offset
}

pub open spec fn invalid_date_message(date: Seq<char>) -> Seq<char> {
    "Invalid date format. Expected YYYY-MM-DD (e.g., '2025-06-19') or RFC 3339 format (e.g., '2025-01-15T14:30:00-05:00'): "@
        + date
}

/// The rule on a transaction's date, given the current instant: it must
/// read as a date, must not fall on a later day than today (as its own
/// offset reads days), and must not be more than 45 days back.
pub open spec fn transaction_date_check_spec(date: Seq<char>, now_secs: int, now_nanos: int) -> Result<
    (),
    Seq<char>,
> {
    match transaction_instant(date) {
        None => Err(invalid_date_message(date)),
        Some((s, n, o)) => if !instant_before(s, n, start_of_tomorrow(now_secs, o), 0) {
            Err("Transaction date cannot be in the future"@)
        } else if instant_before(s, n, now_secs - 45 * 86400, now_nanos) {
            Err("Transaction date cannot be more than 45 days in the past"@)
        } else {
            Ok(())
        },
    }
}

/// Reads a transaction date (see `transaction_instant`).
fn read_transaction_instant(date: &str) -> (r: Option<(i128, i128, i128)>)
    ensures
        match r {
            Some((s, n, o)) => transaction_instant(date@) == Some((s as int, n as int, o as int)),
            None => transaction_instant(date@) is None,
        },
        r matches Some((s, n, o)) ==> -86400 < o < 86400 && 0 <= n < 4294967296 && -9223372036854775808
            <= s <= 9223372036854775807,
{
    match (instant_of(date), offset_of(date)) {
        (Some(i), Some(o)) => Some((i.0 as i128, i.1 as i128, o as i128)),
        _ => {
            match parse_ymd(date) {
                Some(d) => {
                    proof {
                        crate::dates::lemma_day_number_bounds(d);
                    }
                    let days = crate::dates::day_number_of(d);
                    Some(((days as i128) * 86400 + 17 * 3600, 0, -18000))
                },
                None => None,
            }
        },
    }
}

/// Checks a transaction's date against the current instant (`now_secs`
/// seconds and `now_nanos` nanoseconds since the epoch).
pub fn validate_transaction_date(date: &str, now_secs: i64, now_nanos: u32) -> (r: Result<(), String>)
    ensures
        match r {
            Ok(()) => transaction_date_check_spec(date@, now_secs as int, now_nanos as int) == Ok::<
                (),
                Seq<char>,
            >(()),
            Err(m) => transaction_date_check_spec(date@, now_secs as int, now_nanos as int) == Err::<
                (),
                Seq<char>,
            >(m@),
        },
{
    match read_transaction_instant(date) {
        None => {
            let mut m = owned(
                "Invalid date format. Expected YYYY-MM-DD (e.g., '2025-06-19') or RFC 3339 format (e.g., '2025-01-15T14:30:00-05:00'): ",
            );
            push_str(&mut m, date);
            Err(m)
        },
        Some((s, n, o)) => {
            let local = (now_secs as i128) + o;
            let day = if local >= 0 {
                local / 86400
            } else {
                -((-local + 86399) / 86400)
            };
            assert(day == (now_secs as int + o as int) / 86400) by {
                if local < 0 {
                    vstd::arithmetic::div_mod::lemma_fundamental_div_mod(local as int, 86400);
                    vstd::arithmetic::div_mod::lemma_fundamental_div_mod(-local + 86399, 86400);
                }
            }
            let tomorrow = (day + 1) * 86400 - o;
            if !(s < tomorrow || (s == tomorrow && n < 0)) {
                Err(owned("Transaction date cannot be in the future"))
            } else if s < (now_secs as i128) - 45 * 86400 || (s == (now_secs as i128) - 45 * 86400 && n
                < now_nanos as i128) {
                Err(owned("Transaction date cannot be more than 45 days in the past"))
            } else {
                Ok(())
            }
        },
    }
}

/// Whether a transaction date lies more than an hour before the current
/// instant (a backdated entry); `None` when the date does not read.
pub fn is_backdated_transaction(date: &str, now_secs: i64, now_nanos: u32) -> (r: Option<bool>)
    ensures
        match transaction_instant(date@) {
            None => r is None,
            Some((s, n, _)) => r == Some(instant_before(s, n, now_secs - 3600, now_nanos as int)),
        },
{
    match read_transaction_instant(date) {
        None => None,
        Some((s, n, _)) => {
            let limit = (now_secs as i128) - 3600;
            Some(s < limit || (s == limit && n < now_nanos as i128))
        },
    }
}

} // verus!
