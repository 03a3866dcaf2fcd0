//! Ordering of text keys (timestamps, identifiers) as std orders strings,
//! and stable sorting by such keys.
use vstd::prelude::*;
use crate::text::chars_of;

verus! {

/// `a` comes strictly before `b`: std's order on strings, which is the
/// lexicographic order of their characters' code points (for UTF-8 this
/// is the same as the order of their bytes).
pub open spec fn text_lt(a: Seq<char>, b: Seq<char>) -> bool
    decreases a.len(),
{
    if a.len() == 0 {
        b.len() > 0
    } else if b.len() == 0 {
        false
    } else if a[0] != b[0] {
        (a[0] as u32) < (b[0] as u32)
    } else {
        text_lt(a.drop_first(), b.drop_first())
    }
}

pub proof fn lemma_text_lt_irreflexive(a: Seq<char>)
    ensures
        !text_lt(a, a),
    decreases a.len(),
{
    if a.len() > 0 {
        lemma_text_lt_irreflexive(a.drop_first());
    }
}

pub proof fn lemma_text_lt_asymmetric(a: Seq<char>, b: Seq<char>)
    requires
        text_lt(a, b),
    ensures
        !text_lt(b, a),
    decreases a.len(),
{
    if a.len() > 0 && b.len() > 0 && a[0] == b[0] {
        lemma_text_lt_asymmetric(a.drop_first(), b.drop_first());
    }
}

pub proof fn lemma_text_lt_transitive(a: Seq<char>, b: Seq<char>, c: Seq<char>)
    requires
        text_lt(a, b),
        text_lt(b, c),
    ensures
        text_lt(a, c),
    decreases a.len(),
{
    if a.len() > 0 && b.len() > 0 && c.len() > 0 && a[0] == b[0] && b[0] == c[0] {
        lemma_text_lt_transitive(a.drop_first(), b.drop_first(), c.drop_first());
    }
}

pub proof fn lemma_text_lt_total(a: Seq<char>, b: Seq<char>)
    ensures
        text_lt(a, b) || text_lt(b, a) || a == b,
    decreases a.len(),
{
    if a.len() > 0 && b.len() > 0 && a[0] == b[0] {
        lemma_text_lt_total(a.drop_first(), b.drop_first());
        if a.drop_first() == b.drop_first() {
            assert(a =~= seq![a[0]] + a.drop_first());
            assert(b =~= seq![b[0]] + b.drop_first());
        }
    } else if a.len() == 0 && b.len() == 0 {
        assert(a =~= b);
    } else if a.len() > 0 && b.len() > 0 {
        if (a[0] as u32) == (b[0] as u32) {
            vstd::utf8::char_u32_cast(a[0], a[0] as u32);
            vstd::utf8::char_u32_cast(b[0], b[0] as u32);
        }
    }
}

/// Orders two character sequences: -1 when `a` comes first, 1 when `b`
/// does, 0 when they are equal.
pub fn order_chars(a: &Vec<char>, b: &Vec<char>) -> (r: i8)
    ensures
        r == -1 <==> text_lt(a@, b@),
        r == 1 <==> text_lt(b@, a@),
        r == 0 <==> a@ == b@,
{
    let mut i: usize = 0;
    assert(a@.take(0) =~= b@.take(0));
    assert(a@.skip(0) =~= a@);
    assert(b@.skip(0) =~= b@);
    while i < a.len() && i < b.len() && a[i] == b[i]
        invariant
            i <= a.len(),
            i <= b.len(),
            a@.take(i as int) == b@.take(i as int),
            text_lt(a@, b@) == text_lt(a@.skip(i as int), b@.skip(i as int)),
            text_lt(b@, a@) == text_lt(b@.skip(i as int), a@.skip(i as int)),
        decreases a.len() - i,
    {
        assert(a@.skip(i as int).drop_first() =~= a@.skip(i + 1));
        assert(b@.skip(i as int).drop_first() =~= b@.skip(i + 1));
        assert(a@.take(i + 1) =~= a@.take(i as int).push(a@[i as int]));
        assert(b@.take(i + 1) =~= b@.take(i as int).push(b@[i as int]));
        i += 1;
    }
    let ghost sa = a@.skip(i as int);
    let ghost sb = b@.skip(i as int);
    proof {
        lemma_text_lt_irreflexive(a@);
        lemma_text_lt_total(a@, b@);
    }
    if i == a.len() && i == b.len() {
        assert(a@ =~= a@.take(i as int));
        assert(b@ =~= b@.take(i as int));
        0
    } else if i == a.len() {
        assert(sa.len() == 0);
        assert(a@ != b@);
        -1
    } else if i == b.len() {
        assert(sb.len() == 0);
        assert(a@ != b@);
        1
    } else {
        assert(sa[0] == a@[i as int]);
        assert(sb[0] == b@[i as int]);
        assert(a@ != b@) by {
            if a@ == b@ {
                assert(a@[i as int] == b@[i as int]);
            }
        }
        if (a[i] as u32) < (b[i] as u32) {
            -1
        } else {
            proof {
                if (a@[i as int] as u32) == (b@[i as int] as u32) {
                    vstd::utf8::char_u32_cast(a@[i as int], a@[i as int] as u32);
                    vstd::utf8::char_u32_cast(b@[i as int], b@[i as int] as u32);
                }
            }
            1
        }
    }
}

} // verus!

verus! {

/// `r` lists each of `0..n` exactly once.
pub open spec fn is_permutation(r: Seq<usize>, n: nat) -> bool {
    &&& r.len() == n
    &&& forall|k: int| 0 <= k < r.len() ==> (#[trigger] r[k]) < n
    &&& forall|k: int, l: int| 0 <= k < l < r.len() ==> r[k] != r[l]
}

/// A permutation of `0..n` holds every position below `n`.
pub proof fn lemma_permutation_covers(r: Seq<usize>, n: nat, i: usize)
    requires
        is_permutation(r, n),
        i < n,
    ensures
        r.contains(i),
{
    if !r.contains(i) {
        let s = r.map_values(|x: usize| x as int);
        assert(s.no_duplicates()) by {
            assert forall|k: int, l: int|
                (0 <= k < s.len() && 0 <= l < s.len() && k != l) implies s[k] != s[l] by {
                if k < l {
                    assert(r[k] != r[l]);
                } else {
                    assert(r[l] != r[k]);
                }
            }
        }
        s.unique_seq_to_set();
        vstd::set_lib::lemma_int_range(0, n as int);
        let t = vstd::set_lib::set_int_range(0, n as int).remove(i as int);
        assert(s.to_set().subset_of(t)) by {
            assert forall|x: int| s.to_set().contains(x) implies t.contains(x) by {
                let k = choose|k: int| 0 <= k < s.len() && s[k] == x;
                assert(r[k] < n);
                if x == i as int {
                    assert(r[k] == i);
                }
            }
        }
        vstd::set_lib::lemma_len_subset(s.to_set(), t);
    }
}

/// `r` orders the keys from the greatest to the least, keeping the given
/// order among equal keys (what a stable descending sort yields).
pub open spec fn descending_stable(keys: Seq<Seq<char>>, r: Seq<usize>) -> bool {
    forall|k: int, l: int|
        0 <= k < l < r.len() ==> text_lt(keys[#[trigger] r[l] as int], keys[#[trigger] r[k] as int])
            || (keys[r[k] as int] == keys[r[l] as int] && r[k] < r[l])
}

/// `r` orders the keys from the least to the greatest, keeping the given
/// order among equal keys (what a stable ascending sort yields).
pub open spec fn ascending_stable(keys: Seq<Seq<char>>, r: Seq<usize>) -> bool {
    forall|k: int, l: int|
        0 <= k < l < r.len() ==> text_lt(keys[#[trigger] r[k] as int], keys[#[trigger] r[l] as int])
            || (keys[r[k] as int] == keys[r[l] as int] && r[k] < r[l])
}

pub open spec fn views(keys: Seq<String>) -> Seq<Seq<char>> {
    keys.map_values(|s: String| s@)
}

fn char_keys(keys: &Vec<String>) -> (r: Vec<Vec<char>>)
    ensures
        r.len() == keys.len(),
        forall|i: int| 0 <= i < keys.len() ==> (#[trigger] r@[i])@ == keys@[i]@,
{
    let mut r: Vec<Vec<char>> = Vec::new();
    let mut i: usize = 0;
    while i < keys.len()
        invariant
            i <= keys.len(),
            r.len() == i,
            forall|k: int| 0 <= k < i ==> (#[trigger] r@[k])@ == keys@[k]@,
        decreases keys.len() - i,
    {
        r.push(chars_of(keys[i].as_str()));
        i += 1;
    }
    r
}

/// The positions of `keys` ordered by key, greatest first, equal keys in
/// their given order.
pub fn order_descending(keys: &Vec<String>) -> (r: Vec<usize>)
    ensures
        is_permutation(r@, keys.len() as nat),
        descending_stable(views(keys@), r@),
{
    let ck = char_keys(keys);
    let ghost kv = views(keys@);
    assert forall|i: int| 0 <= i < keys.len() implies (#[trigger] ck@[i])@ == kv[i] by {}
    let mut r: Vec<usize> = Vec::new();
    let mut i: usize = 0;
    while i < ck.len()
        invariant
            i <= ck.len() == keys.len(),
            kv.len() == keys.len(),
            forall|j: int| 0 <= j < keys.len() ==> (#[trigger] ck@[j])@ == kv[j],
            is_permutation(r@, i as nat),
            descending_stable(kv, r@),
        decreases ck.len() - i,
    {
        // first position holding a key strictly less than key i
        let mut p: usize = 0;
        while p < r.len()
            invariant
                p <= r.len(),
                i < ck.len(),
                ck.len() == keys.len(),
                kv.len() == keys.len(),
                is_permutation(r@, i as nat),
                forall|j: int| 0 <= j < keys.len() ==> (#[trigger] ck@[j])@ == kv[j],
                forall|q: int| 0 <= q < p ==> !text_lt(kv[#[trigger] r@[q] as int], kv[i as int]),
            ensures
                p <= r.len(),
                forall|q: int| 0 <= q < p ==> !text_lt(kv[#[trigger] r@[q] as int], kv[i as int]),
                p < r.len() ==> text_lt(kv[r@[p as int] as int], kv[i as int]),
            decreases r.len() - p,
        {
            let o = order_chars(&ck[r[p]], &ck[i]);
            if o == -1 {
                break;
            }
            p += 1;
        }
        let ghost old_r = r@;
        proof {
            // every later key is below key i
            assert forall|q: int| p <= q < old_r.len() implies text_lt(
                kv[#[trigger] old_r[q] as int],
                kv[i as int],
            ) by {
                assert(text_lt(kv[old_r[p as int] as int], kv[i as int]));
                if q > p {
                    assert(text_lt(kv[old_r[q] as int], kv[old_r[p as int] as int])
                        || kv[old_r[p as int] as int] == kv[old_r[q] as int]);
                    if text_lt(kv[old_r[q] as int], kv[old_r[p as int] as int]) {
                        lemma_text_lt_transitive(
                            kv[old_r[q] as int],
                            kv[old_r[p as int] as int],
                            kv[i as int],
                        );
                    }
                }
            }
        }
        r.insert(p, i);
        proof {
            assert(r@ == old_r.insert(p as int, i));
            assert forall|k: int| 0 <= k < r@.len() implies (#[trigger] r@[k]) < i + 1 by {
                if k < p {
                    assert(r@[k] == old_r[k]);
                } else if k > p {
                    assert(r@[k] == old_r[k - 1]);
                }
            }
            assert forall|k: int, l: int| 0 <= k < l < r@.len() implies r@[k] != r@[l] by {
                if k < p && l < p {
                } else if k < p && l == p {
                } else if k < p {
                    assert(r@[l] == old_r[l - 1]);
                } else if k == p {
                    assert(r@[l] == old_r[l - 1]);
                } else {
                    assert(r@[k] == old_r[k - 1]);
                    assert(r@[l] == old_r[l - 1]);
                }
            }
            assert forall|k: int, l: int| 0 <= k < l < r@.len() implies text_lt(
                kv[#[trigger] r@[l] as int],
                kv[#[trigger] r@[k] as int],
            ) || (kv[r@[k] as int] == kv[r@[l] as int] && r@[k] < r@[l]) by {
                if l < p {
                    assert(r@[k] == old_r[k] && r@[l] == old_r[l]);
                } else if l == p {
                    assert(r@[k] == old_r[k]);
                    assert(!text_lt(kv[old_r[k] as int], kv[i as int]));
                    lemma_text_lt_total(kv[old_r[k] as int], kv[i as int]);
                } else if k < p {
                    assert(r@[k] == old_r[k]);
                    assert(r@[l] == old_r[l - 1]);
                    assert(!text_lt(kv[old_r[k] as int], kv[i as int]));
                    assert(text_lt(kv[old_r[l - 1] as int], kv[i as int]));
                    lemma_text_lt_total(kv[old_r[k] as int], kv[i as int]);
                    if text_lt(kv[i as int], kv[old_r[k] as int]) {
                        lemma_text_lt_transitive(
                            kv[old_r[l - 1] as int],
                            kv[i as int],
                            kv[old_r[k] as int],
                        );
                    }
                } else if k == p {
                    assert(r@[l] == old_r[l - 1]);
                    assert(text_lt(kv[old_r[l - 1] as int], kv[i as int]));
                } else {
                    assert(r@[k] == old_r[k - 1]);
                    assert(r@[l] == old_r[l - 1]);
                }
            }
        }
        i += 1;
    }
    r
}


/// The positions of `keys` ordered by key, least first, equal keys in
/// their given order.
pub fn order_ascending(keys: &Vec<String>) -> (r: Vec<usize>)
    ensures
        is_permutation(r@, keys.len() as nat),
        ascending_stable(views(keys@), r@),
{
    let ck = char_keys(keys);
    let ghost kv = views(keys@);
    assert forall|i: int| 0 <= i < keys.len() implies (#[trigger] ck@[i])@ == kv[i] by {}
    let mut r: Vec<usize> = Vec::new();
    let mut i: usize = 0;
    while i < ck.len()
        invariant
            i <= ck.len() == keys.len(),
            kv.len() == keys.len(),
            forall|j: int| 0 <= j < keys.len() ==> (#[trigger] ck@[j])@ == kv[j],
            is_permutation(r@, i as nat),
            ascending_stable(kv, r@),
        decreases ck.len() - i,
    {
        // first position holding a key strictly greater than key i
        let mut p: usize = 0;
        while p < r.len()
            invariant
                p <= r.len(),
                i < ck.len(),
                ck.len() == keys.len(),
                kv.len() == keys.len(),
                is_permutation(r@, i as nat),
                forall|j: int| 0 <= j < keys.len() ==> (#[trigger] ck@[j])@ == kv[j],
                forall|q: int| 0 <= q < p ==> !text_lt(kv[i as int], kv[#[trigger] r@[q] as int]),
            ensures
                p <= r.len(),
                forall|q: int| 0 <= q < p ==> !text_lt(kv[i as int], kv[#[trigger] r@[q] as int]),
                p < r.len() ==> text_lt(kv[i as int], kv[r@[p as int] as int]),
            decreases r.len() - p,
        {
            let o = order_chars(&ck[i], &ck[r[p]]);
            if o == -1 {
                break;
            }
            p += 1;
        }
        let ghost old_r = r@;
        proof {
            // every later key is above key i
            assert forall|q: int| p <= q < old_r.len() implies text_lt(
                kv[i as int],
                kv[#[trigger] old_r[q] as int],
            ) by {
                assert(text_lt(kv[i as int], kv[old_r[p as int] as int]));
                if q > p {
                    assert(text_lt(kv[old_r[p as int] as int], kv[old_r[q] as int])
                        || kv[old_r[p as int] as int] == kv[old_r[q] as int]);
                    if text_lt(kv[old_r[p as int] as int], kv[old_r[q] as int]) {
                        lemma_text_lt_transitive(
                            kv[i as int],
                            kv[old_r[p as int] as int],
                            kv[old_r[q] as int],
                        );
                    }
                }
            }
        }
        r.insert(p, i);
        proof {
            assert(r@ == old_r.insert(p as int, i));
            assert forall|k: int| 0 <= k < r@.len() implies (#[trigger] r@[k]) < i + 1 by {
                if k < p {
                    assert(r@[k] == old_r[k]);
                } else if k > p {
                    assert(r@[k] == old_r[k - 1]);
                }
            }
            assert forall|k: int, l: int| 0 <= k < l < r@.len() implies r@[k] != r@[l] by {
                if k < p && l < p {
                } else if k < p && l == p {
                } else if k < p {
                    assert(r@[l] == old_r[l - 1]);
                } else if k == p {
                    assert(r@[l] == old_r[l - 1]);
                } else {
                    assert(r@[k] == old_r[k - 1]);
                    assert(r@[l] == old_r[l - 1]);
                }
            }
            assert forall|k: int, l: int| 0 <= k < l < r@.len() implies text_lt(
                kv[#[trigger] r@[k] as int],
                kv[#[trigger] r@[l] as int],
            ) || (kv[r@[k] as int] == kv[r@[l] as int] && r@[k] < r@[l]) by {
                if l < p {
                    assert(r@[k] == old_r[k] && r@[l] == old_r[l]);
                } else if l == p {
                    assert(r@[k] == old_r[k]);
                    assert(!text_lt(kv[i as int], kv[old_r[k] as int]));
                    lemma_text_lt_total(kv[old_r[k] as int], kv[i as int]);
                } else if k < p {
                    assert(r@[k] == old_r[k]);
                    assert(r@[l] == old_r[l - 1]);
                    assert(!text_lt(kv[i as int], kv[old_r[k] as int]));
                    assert(text_lt(kv[i as int], kv[old_r[l - 1] as int]));
                    lemma_text_lt_total(kv[old_r[k] as int], kv[i as int]);
                    if text_lt(kv[old_r[k] as int], kv[i as int]) {
                        lemma_text_lt_transitive(
                            kv[old_r[k] as int],
                            kv[i as int],
                            kv[old_r[l - 1] as int],
                        );
                    }
                } else if k == p {
                    assert(r@[l] == old_r[l - 1]);
                    assert(text_lt(kv[i as int], kv[old_r[l - 1] as int]));
                } else {
                    assert(r@[k] == old_r[k - 1]);
                    assert(r@[l] == old_r[l - 1]);
                }
            }
        }
        i += 1;
    }
    r
}

} // verus!
