//! Listing and deleting transactions: the query and result types, how a
//! page is cut from the stored transactions, and what a deletion reports.
use vstd::prelude::*;
use crate::ordering::{ascending_stable, descending_stable, lemma_permutation_covers, order_ascending, order_chars, order_descending, text_lt, views};
use crate::text::{chars_of, decimal, owned, push_decimal, push_str, same_text};

verus! {

/// Query parameters for listing transactions.
#[derive(Clone, Debug)]
pub struct TransactionListQuery {
    pub after: Option<String>,
    pub limit: Option<u32>,
    pub start_date: Option<String>,
    pub end_date: Option<String>,
}

impl Default for TransactionListQuery {
    fn default() -> (r: Self)
        ensures
            r.after is None,
            r.limit is None,
            r.start_date is None,
            r.end_date is None,
    {
        TransactionListQuery { after: None, limit: None, start_date: None, end_date: None }
    }
}

impl TransactionListQuery {
    /// The page size: the given limit, 20 when none is given.
    pub fn page_size(&self) -> (r: u32)
        ensures
            r == match self.limit {
                Some(l) => l,
                None => 20,
            },
    {
        match self.limit {
            Some(l) => l,
            None => 20,
        }
    }

    /// Whether the query bounds the timestamps.
    pub fn has_date_range(&self) -> (r: bool)
        ensures
            r == (self.start_date is Some || self.end_date is Some),
    {
        self.start_date.is_some() || self.end_date.is_some()
    }
}

/// Command for deleting several transactions.
#[derive(Clone, Debug)]
pub struct DeleteTransactionsCommand {
    pub transaction_ids: Vec<String>,
}

/// Whether more transactions follow a page, and the id to continue after.
#[derive(Clone, Debug)]
pub struct PaginationInfo {
    pub has_more: bool,
    pub next_cursor: Option<String>,
}

/// A page of transactions with its pagination.
#[derive(Clone, Debug)]
pub struct TransactionListResult<T> {
    pub transactions: Vec<T>,
    pub pagination: PaginationInfo,
}

/// What a deletion did.
#[derive(Clone, Debug)]
pub struct DeleteTransactionsResult {
    pub deleted_count: usize,
    pub not_found_ids: Vec<String>,
    pub success_message: String,
}

/// `target` occurs at `p` in `ids` and nowhere before.
pub open spec fn is_first_at(ids: Seq<Seq<char>>, target: Seq<char>, p: int) -> bool {
    0 <= p < ids.len() && ids[p] == target && forall|j: int| 0 <= j < p ==> ids[j] != target
}

/// The first position at which `target` occurs in `ids`.
pub open spec fn first_position(ids: Seq<Seq<char>>, target: Seq<char>) -> Option<int> {
    if exists|p: int| is_first_at(ids, target, p) {
        Some(choose|p: int| is_first_at(ids, target, p))
    } else {
        None
    }
}

/// The part `[start, end)` of a newest-first list that a date-filtered
/// query keeps: what follows the cursor id (everything when the cursor is
/// absent or not found), cut to one more than the limit when a limit is
/// given (the extra one tells whether more follow).
pub open spec fn window_spec(ids: Seq<Seq<char>>, after: Option<Seq<char>>, limit: Option<u32>) -> (
    int,
    int,
) {
    let start = match after {
        Some(a) => match first_position(ids, a) {
            Some(i) => i + 1,
            None => 0,
        },
        None => 0,
    };
    let end = match limit {
        Some(l) => if start + l + 1 < ids.len() {
            start + l + 1
        } else {
            ids.len() as int
        },
        None => ids.len() as int,
    };
    (start, end)
}

/// Where the first `target` is in `ids`, if anywhere.
pub fn position_of(ids: &Vec<String>, target: &String) -> (r: Option<usize>)
    ensures
        match r {
            Some(i) => i < ids.len() && ids@[i as int]@ == target@ && forall|j: int|
                0 <= j < i ==> ids@[j]@ != target@,
            None => forall|j: int| 0 <= j < ids.len() ==> ids@[j]@ != target@,
        },
{
    let mut i: usize = 0;
    while i < ids.len()
        invariant
            i <= ids.len(),
            forall|j: int| 0 <= j < i ==> ids@[j]@ != target@,
        decreases ids.len() - i,
    {
        if same_text(&ids[i], target) {
            return Some(i);
        }
        i += 1;
    }
    None
}

/// The window of a newest-first list kept by a date-filtered query (see
/// `window_spec`).
pub fn page_window(ids: &Vec<String>, after: &Option<String>, limit: Option<u32>) -> (r: (
    usize,
    usize,
))
    ensures
        r.0 <= r.1 <= ids.len(),
        r.0 as int == window_spec(
            views(ids@),
            match after {
                Some(a) => Some(a@),
                None => None,
            },
            limit,
        ).0,
        r.1 as int == window_spec(
            views(ids@),
            match after {
                Some(a) => Some(a@),
                None => None,
            },
            limit,
        ).1,
{
    let ghost v = views(ids@);
    let start: usize = match after {
        Some(a) => match position_of(ids, a) {
            Some(i) => {
                assert(is_first_at(v, a@, i as int));
                let ghost p = first_position(v, a@)->0;
                assert(is_first_at(v, a@, p));
                assert(p == i) by {
                    if p < i {
                        assert(ids@[p]@ == a@);
                    } else if p > i {
                        assert(v[i as int] == a@);
                    }
                }
                i + 1
            },
            None => {
                assert(!exists|p: int| is_first_at(v, a@, p)) by {
                    if exists|p: int| is_first_at(v, a@, p) {
                        let k = choose|p: int| is_first_at(v, a@, p);
                        assert(ids@[k]@ == a@);
                    }
                }
                0
            },
        },
        None => 0,
    };
    let end: usize = match limit {
        Some(l) => {
            if (l as usize) < ids.len() - start && start + (l as usize) + 1 < ids.len() {
                start + (l as usize) + 1
            } else {
                ids.len()
            }
        },
        None => ids.len(),
    };
    (start, end)
}

/// The part `[start, end)` of a newest-first list that the store hands
/// out for a cursor and a count: what follows the cursor id (everything
/// when it is absent or not found), at most `count` of them when a count
/// is given.
pub open spec fn cursor_window_spec(ids: Seq<Seq<char>>, after: Option<Seq<char>>, count: Option<
    u32,
>) -> (int, int) {
    let start = match after {
        Some(a) => match first_position(ids, a) {
            Some(i) => i + 1,
            None => 0,
        },
        None => 0,
    };
    let end = match count {
        Some(c) => if start + c < ids.len() {
            start + c
        } else {
            ids.len() as int
        },
        None => ids.len() as int,
    };
    (start, end)
}

/// The window handed out for a cursor and a count (see
/// `cursor_window_spec`).
pub fn cursor_window(ids: &Vec<String>, after: &Option<String>, count: Option<u32>) -> (r: (
    usize,
    usize,
))
    ensures
        r.0 <= r.1 <= ids.len(),
        (r.0 as int, r.1 as int) == cursor_window_spec(
            views(ids@),
            match after {
                Some(a) => Some(a@),
                None => None,
            },
            count,
        ),
{
    let (start, _) = page_window(ids, after, None);
    let end: usize = match count {
        Some(c) => {
            if (c as usize) < ids.len() - start {
                start + (c as usize)
            } else {
                ids.len()
            }
        },
        None => ids.len(),
    };
    (start, end)
}

/// Cursor paging leaves nothing out and shows nothing twice: when the ids
/// are distinct, the page that continues after the last id of a non-empty
/// page starts right where that page ended.
pub proof fn lemma_cursor_continues(
    ids: Seq<Seq<char>>,
    after: Option<Seq<char>>,
    count: Option<u32>,
    next_count: Option<u32>,
)
    requires
        forall|i: int, j: int| 0 <= i < j < ids.len() ==> ids[i] != ids[j],
        cursor_window_spec(ids, after, count).0 < cursor_window_spec(ids, after, count).1,
    ensures
        ({
            let (start, end) = cursor_window_spec(ids, after, count);
            cursor_window_spec(ids, Some(ids[end - 1]), next_count).0 == end
        }),
{
    let (start, end) = cursor_window_spec(ids, after, count);
    let last = ids[end - 1];
    assert(0 <= start);
    assert(is_first_at(ids, last, end - 1));
    let p = choose|p: int| is_first_at(ids, last, p);
    assert(p == end - 1) by {
        if p < end - 1 {
            assert(ids[p] == last);
        } else if p > end - 1 {
            assert(ids[end - 1] == last);
        }
    }
}

/// A timestamp within the optional bounds of a date-filtered query,
/// compared as text (`start <= date <= end`).
pub open spec fn in_date_range(d: Seq<char>, start: Option<Seq<char>>, end: Option<Seq<char>>) -> bool {
    (match start {
        Some(s) => !text_lt(d, s),
        None => true,
    }) && (match end {
        Some(e) => !text_lt(e, d),
        None => true,
    })
}

pub open spec fn opt_view(o: Option<String>) -> Option<Seq<char>> {
    match o {
        Some(s) => Some(s@),
        None => None,
    }
}

fn within(d: &String, start: &Option<String>, end: &Option<String>) -> (r: bool)
    ensures
        r == in_date_range(d@, opt_view(*start), opt_view(*end)),
{
    let dv = chars_of(d.as_str());
    let after_start = match start {
        Some(s) => {
            let sv = chars_of(s.as_str());
            order_chars(&dv, &sv) != -1
        },
        None => true,
    };
    let before_end = match end {
        Some(e) => {
            let ev = chars_of(e.as_str());
            order_chars(&ev, &dv) != -1
        },
        None => true,
    };
    after_start && before_end
}

/// The positions of the transactions whose timestamps lie within the
/// bounds, newest first: the oldest-first order of the store turned
/// around, so equal timestamps come last-stored first.
pub fn range_newest_first(dates: &Vec<String>, start: &Option<String>, end: &Option<String>) -> (r:
    Vec<usize>)
    ensures
        forall|k: int| 0 <= k < r.len() ==> (#[trigger] r@[k]) < dates.len(),
        forall|k: int, l: int| 0 <= k < l < r.len() ==> r@[k] != r@[l],
        forall|i: int|
            0 <= i < dates.len() ==> (r@.contains(i as usize) <==> in_date_range(
                #[trigger] dates@[i]@,
                opt_view(*start),
                opt_view(*end),
            )),
        forall|k: int, l: int|
            0 <= k < l < r.len() ==> text_lt(
                dates@[#[trigger] r@[l] as int]@,
                dates@[#[trigger] r@[k] as int]@,
            ) || (dates@[r@[k] as int]@ == dates@[r@[l] as int]@ && r@[l] < r@[k]),
{
    let asc = order_ascending(dates);
    let ghost keys = views(dates@);
    let ghost st = opt_view(*start);
    let ghost en = opt_view(*end);
    let mut out: Vec<usize> = Vec::new();
    let ghost mut pos: Seq<int> = Seq::empty();
    let mut k = asc.len();
    while k > 0
        invariant
            k <= asc.len() == dates.len(),
            crate::ordering::is_permutation(asc@, dates.len() as nat),
            ascending_stable(keys, asc@),
            keys == views(dates@),
            st == opt_view(*start),
            en == opt_view(*end),
            pos.len() == out.len(),
            forall|p: int|
                0 <= p < pos.len() ==> k <= #[trigger] pos[p] < asc.len() && out@[p] == asc@[pos[p]],
            forall|p: int, q: int| 0 <= p < q < pos.len() ==> pos[q] < pos[p],
            forall|j: int|
                k <= j < asc.len() ==> (out@.contains(#[trigger] asc@[j]) <==> in_date_range(
                    dates@[asc@[j] as int]@,
                    st,
                    en,
                )),
        decreases k,
    {
        k -= 1;
        let i = asc[k];
        let ghost before = out@;
        let keep = within(&dates[i], start, end);
        if keep {
            out.push(i);
            proof {
                pos = pos.push(k as int);
            }
        }
        proof {
            assert forall|x: usize| out@.contains(x) <==> (before.contains(x) || (keep && x == i)) by {
                if out@.contains(x) {
                    let p = choose|p: int| 0 <= p < out@.len() && out@[p] == x;
                    if p < before.len() {
                        assert(before[p] == x);
                    }
                }
                if before.contains(x) {
                    let p = choose|p: int| 0 <= p < before.len() && before[p] == x;
                    assert(out@[p] == x);
                }
                if keep && x == i {
                    assert(out@[out@.len() - 1] == x);
                }
            }
            assert forall|j: int| k <= j < asc.len() implies (out@.contains(#[trigger] asc@[j])
                <==> in_date_range(dates@[asc@[j] as int]@, st, en)) by {
                if j > k {
                    assert(asc@[j] != asc@[k as int]);
                } else {
                    if before.contains(asc@[k as int]) {
                        let p = choose|p: int| 0 <= p < before.len() && before[p] == asc@[k as int];
                        assert(before[p] == asc@[pos[p]]);
                        assert(pos[p] > k);
                        assert(asc@[pos[p]] != asc@[k as int]);
                    }
                }
            }
        }
    }
    proof {
        assert forall|i: int| 0 <= i < dates.len() implies (out@.contains(i as usize) <==> in_date_range(
            #[trigger] dates@[i]@,
            opt_view(*start),
            opt_view(*end),
        )) by {
            lemma_permutation_covers(asc@, dates.len() as nat, i as usize);
            let j = choose|j: int| 0 <= j < asc@.len() && asc@[j] == i as usize;
            assert(out@.contains(asc@[j]) <==> in_date_range(dates@[asc@[j] as int]@, st, en));
        }
        assert forall|p: int| 0 <= p < out.len() implies (#[trigger] out@[p]) < dates.len() by {
            assert(out@[p] == asc@[pos[p]]);
        }
        assert forall|p: int, q: int| 0 <= p < q < out.len() implies out@[p] != out@[q] by {
            assert(pos[q] < pos[p]);
            assert(asc@[pos[q]] != asc@[pos[p]]);
        }
        assert forall|p: int, q: int| 0 <= p < q < out.len() implies text_lt(
            dates@[#[trigger] out@[q] as int]@,
            dates@[#[trigger] out@[p] as int]@,
        ) || (dates@[out@[p] as int]@ == dates@[out@[q] as int]@ && out@[q] < out@[p]) by {
            let a = pos[q];
            let b = pos[p];
            assert(a < b);
            assert(keys[asc@[a] as int] == dates@[asc@[a] as int]@);
            assert(keys[asc@[b] as int] == dates@[asc@[b] as int]@);
        }
    }
    out
}

/// How a page is laid out: the positions of the transactions shown,
/// newest first, whether more follow, and the cursor to continue after.
#[derive(Clone, Debug)]
pub struct PageLayout {
    pub order: Vec<usize>,
    pub has_more: bool,
    pub next_cursor: Option<String>,
}

/// Lays out a page: the transactions newest first by timestamp (equal
/// timestamps keep their order), cut to `limit`; more follow when there
/// were more than `limit`; the cursor is then the id of the last one
/// shown.
pub fn finish_page(dates: &Vec<String>, ids: &Vec<String>, limit: u32) -> (r: PageLayout)
    requires
        dates.len() == ids.len(),
    ensures
        r.has_more == (dates.len() > limit),
        r.order.len() == if r.has_more {
            limit as int
        } else {
            dates.len() as int
        },
        forall|k: int| 0 <= k < r.order.len() ==> (#[trigger] r.order@[k]) < dates.len(),
        forall|k: int, l: int| 0 <= k < l < r.order.len() ==> r.order@[k] != r.order@[l],
        descending_stable(views(dates@), r.order@),
        r.has_more && r.order.len() > 0 ==> (r.next_cursor matches Some(c) && c@
            == ids@[r.order@[r.order.len() - 1] as int]@),
        !(r.has_more && r.order.len() > 0) ==> r.next_cursor is None,
{
    let full = order_descending(dates);
    let has_more = dates.len() > limit as usize;
    let mut order: Vec<usize> = Vec::new();
    let keep = if has_more {
        limit as usize
    } else {
        full.len()
    };
    let mut i: usize = 0;
    while i < keep
        invariant
            i <= keep <= full.len(),
            full.len() == dates.len(),
            order@ == full@.take(i as int),
        decreases keep - i,
    {
        order.push(full[i]);
        assert(full@.take(i + 1) =~= full@.take(i as int).push(full@[i as int]));
        i += 1;
    }
    assert(order@ == full@.take(keep as int));
    let next_cursor = if has_more && order.len() > 0 {
        let last = order[order.len() - 1];
        Some(owned(ids[last].as_str()))
    } else {
        None
    };
    PageLayout { order, has_more, next_cursor }
}

/// The id of a transaction recorded at `epoch_millis`:
/// `transaction::income::{millis}` for money in (an amount of zero or
/// more), `transaction::expense::{millis}` for money out.
pub fn generate_transaction_id(is_income: bool, epoch_millis: u64) -> (r: String)
    ensures
        r@ == "transaction::"@ + (if is_income {
            "income"@
        } else {
            "expense"@
        }) + "::"@ + decimal(epoch_millis as nat),
{
    let mut r = owned("transaction::");
    if is_income {
        push_str(&mut r, "income");
    } else {
        push_str(&mut r, "expense");
    }
    push_str(&mut r, "::");
    push_decimal(&mut r, epoch_millis);
    r
}

/// A new transaction's description must have 1 to 256 bytes; the message
/// when it has not.
pub fn check_new_description(description: &str) -> (r: Result<(), String>)
    ensures
        r is Ok <==> (description@.len() > 0 && crate::text::byte_len(description) <= 256),
        r matches Err(m) ==> m@ == "Description must be between 1 and 256 characters"@,
{
    if description.is_empty() || description.len() > 256 {
        Err(owned("Description must be between 1 and 256 characters"))
    } else {
        Ok(())
    }
}

pub open spec fn deletion_message_spec(deleted: u32) -> Seq<char> {
    if deleted == 0 {
        "No transactions were deleted"@
    } else if deleted == 1 {
        "1 transaction deleted successfully"@
    } else {
        decimal(deleted as nat) + " transactions deleted successfully"@
    }
}

/// The message reporting how many transactions were deleted.
pub fn deletion_message(deleted: u32) -> (r: String)
    ensures
        r@ == deletion_message_spec(deleted),
{
    if deleted == 0 {
        owned("No transactions were deleted")
    } else if deleted == 1 {
        owned("1 transaction deleted successfully")
    } else {
        let mut r = String::new();
        push_decimal(&mut r, deleted as u64);
        push_str(&mut r, " transactions deleted successfully");
        r
    }
}

/// The ids asked for that do not exist, in the order asked.
pub fn missing_ids(requested: &Vec<String>, existing: &Vec<String>) -> (r: Vec<String>)
    ensures
        views(r@) == views(requested@).filter(|v: Seq<char>| !views(existing@).contains(v)),
{
    let ghost pred = |v: Seq<char>| !views(existing@).contains(v);
    let mut out: Vec<String> = Vec::new();
    let mut i: usize = 0;
    while i < requested.len()
        invariant
            i <= requested.len(),
            pred == (|v: Seq<char>| !views(existing@).contains(v)),
            views(out@) == views(requested@).take(i as int).filter(pred),
        decreases requested.len() - i,
    {
        let ghost vr = views(requested@);
        assert(vr.take(i + 1) =~= vr.take(i as int).push(vr[i as int]));
        proof {
            vr.take(i as int).lemma_filter_push(vr[i as int], pred);
        }
        let found = position_of(existing, &requested[i]);
        let ghost ve = views(existing@);
        match found {
            Some(k) => {
                assert(ve[k as int] == requested@[i as int]@);
                assert(ve.contains(vr[i as int]));
            },
            None => {
                assert(!ve.contains(vr[i as int])) by {
                    if ve.contains(vr[i as int]) {
                        let k = choose|k: int| 0 <= k < ve.len() && ve[k] == vr[i as int];
                        assert(existing@[k]@ == requested@[i as int]@);
                    }
                }
                let copy = owned(requested[i].as_str());
                out.push(copy);
                assert(views(out@) =~= views(out@).drop_last().push(copy@));
            },
        }
        assert(views(out@) =~= views(requested@).take(i + 1).filter(pred)) by {
            if found is None {
                assert(views(out@).drop_last() =~= views(out@.drop_last()));
            }
        }
        i += 1;
    }
    assert(views(requested@).take(i as int) =~= views(requested@));
    out
}

/// Every id asked for is reported missing exactly when it is not among
/// the existing ones.
pub proof fn lemma_missing_ids_exact(requested: Seq<Seq<char>>, existing: Seq<Seq<char>>, v: Seq<char>)
    ensures
        requested.filter(|w: Seq<char>| !existing.contains(w)).contains(v) <==> (requested.contains(
            v,
        ) && !existing.contains(v)),
{
    let pred = |w: Seq<char>| !existing.contains(w);
    requested.filter_lemma(pred);
    if requested.filter(pred).contains(v) {
        requested.lemma_filter_contains_rev(pred, v);
        let k = choose|k: int| 0 <= k < requested.filter(pred).len() && requested.filter(pred)[k] == v;
        assert(pred(requested.filter(pred)[k]));
    }
    if requested.contains(v) && !existing.contains(v) {
        let k = choose|k: int| 0 <= k < requested.len() && requested[k] == v;
        assert(pred(requested[k]));
    }
}

/// What a deletion reports, given the ids asked for, those that exist,
/// and how many were deleted.
pub fn deletion_result(requested: &Vec<String>, existing: &Vec<String>, deleted: u32) -> (r:
    DeleteTransactionsResult)
    ensures
        r.deleted_count == deleted,
        views(r.not_found_ids@) == views(requested@).filter(
            |v: Seq<char>| !views(existing@).contains(v),
        ),
        r.success_message@ == deletion_message_spec(deleted),
{
    DeleteTransactionsResult {
        deleted_count: deleted as usize,
        not_found_ids: missing_ids(requested, existing),
        success_message: deletion_message(deleted),
    }
}

} // verus!
