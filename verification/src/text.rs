//! Character-level text primitives: whitespace trimming, decimal
//! parsing and formatting, and splitting on a separator.
use vstd::prelude::*;
use vstd::string::StringSliceAdditionalSpecFns;

verus! {

/// Appends one character to a string (std `String::push`).
#[verifier::external_body]
pub(crate) fn push_char(s: &mut String, c: char)
    ensures
        final(s)@ == old(s)@.push(c),
{
    s.push(c);
}

/// The characters of `s`, in order.
pub fn chars_of(s: &str) -> (out: Vec<char>)
    ensures
        out@ == s@,
{
    let mut out: Vec<char> = Vec::new();
    for c in it: s.chars()
        invariant
            out@ == it.seq().take(it.index() as int),
            it.seq() == s@,
    {
        out.push(c);
    }
    out
}

/// A string holding exactly the characters of `v`.
pub fn string_from_chars(v: &Vec<char>) -> (out: String)
    ensures
        out@ == v@,
{
    let mut out = String::new();
    let mut i: usize = 0;
    while i < v.len()
        invariant
            i <= v.len(),
            out@ == v@.take(i as int),
        decreases v.len() - i,
    {
        push_char(&mut out, v[i]);
        assert(v@.take(i + 1) =~= v@.take(i as int).push(v@[i as int]));
        i += 1;
    }
    assert(v@.take(v.len() as int) =~= v@);
    out
}

pub open spec fn is_digit(c: char) -> bool {
    '0' <= c && c <= '9'
}

pub open spec fn digit_value(c: char) -> nat {
    (c as int - '0' as int) as nat
}

pub open spec fn digit_char(d: nat) -> char {
    (d + '0' as nat) as char
}

pub open spec fn all_digits(s: Seq<char>) -> bool {
    forall|i: int| 0 <= i < s.len() ==> is_digit(#[trigger] s[i])
}

/// The number written by a string of decimal digits.
pub open spec fn digits_value(s: Seq<char>) -> nat
    decreases s.len(),
{
    if s.len() == 0 {
        0
    } else {
        digits_value(s.drop_last()) * 10 + digit_value(s.last())
    }
}

/// The digits after an optional leading `+`.
pub open spec fn unsigned_body(s: Seq<char>) -> Seq<char> {
    if s.len() > 0 && s[0] == '+' {
        s.drop_first()
    } else {
        s
    }
}

/// What std's `str::parse::<u32>` gives: an optional `+`, then one or
/// more ASCII digits whose value fits in a `u32`.
pub open spec fn parse_u32_spec(s: Seq<char>) -> Option<u32> {
    let b = unsigned_body(s);
    if b.len() > 0 && all_digits(b) && digits_value(b) <= u32::MAX {
        Some(digits_value(b) as u32)
    } else {
        None
    }
}

proof fn lemma_digits_value_prefix(s: Seq<char>, k: int)
    requires
        all_digits(s),
        0 <= k <= s.len(),
    ensures
        digits_value(s.take(k)) <= digits_value(s),
    decreases s.len(),
{
    if k < s.len() {
        assert(s.take(k) =~= s.drop_last().take(k));
        assert(all_digits(s.drop_last()));
        lemma_digits_value_prefix(s.drop_last(), k);
    } else {
        assert(s.take(k) =~= s);
    }
}

/// Parses `s[start..end]` as std parses a `u32`.
pub fn parse_u32_range(s: &Vec<char>, start: usize, end: usize) -> (r: Option<u32>)
    requires
        start <= end <= s.len(),
    ensures
        r == parse_u32_spec(s@.subrange(start as int, end as int)),
{
    let ghost whole = s@.subrange(start as int, end as int);
    let mut i = start;
    if i < end && s[i] == '+' {
        i += 1;
    }
    let ghost body = s@.subrange(i as int, end as int);
    assert(body =~= unsigned_body(whole));
    if i == end {
        return None;
    }
    let mut acc: u32 = 0;
    let mut j = i;
    while j < end
        invariant
            i <= j <= end <= s.len(),
            body == s@.subrange(i as int, end as int),
            whole == s@.subrange(start as int, end as int),
            body == unsigned_body(whole),
            body.len() > 0,
            all_digits(body.take(j - i)),
            acc as nat == digits_value(body.take(j - i)),
        decreases end - j,
    {
        let c = s[j];
        if !(c >= '0' && c <= '9') {
            assert(body[j - i] == c);
            assert(!is_digit(body[j - i]));
            assert(!all_digits(body));
            return None;
        }
        let d: u32 = (c as u32) - ('0' as u32);
        assert(body.take(j - i + 1).drop_last() =~= body.take(j - i));
        assert(body.take(j - i + 1).last() == c);
        if acc > 429496729 || (acc == 429496729 && d > 5) {
            assert(is_digit(c));
            assert(digit_value(c) == d);
            assert(digits_value(body.take(j - i + 1)) == acc * 10 + d);
            assert(digits_value(body.take(j - i + 1)) > u32::MAX);
            // any longer run of digits only grows
            proof {
                if all_digits(body) {
                    lemma_digits_value_prefix(body, (j - i + 1) as int);
                }
            }
            return None;
        }
        acc = acc * 10 + d;
        assert(all_digits(body.take(j - i + 1)));
        j += 1;
    }
    assert(body.take(j - i) =~= body);
    Some(acc)
}

} // verus!

verus! {

/// The decimal numeral of `n`, as `{}` writes it.
pub open spec fn decimal(n: nat) -> Seq<char>
    decreases n,
{
    if n < 10 {
        seq![digit_char(n)]
    } else {
        decimal(n / 10).push(digit_char(n % 10))
    }
}

/// `s` left-padded with `'0'` up to `width` characters, as `{:0width}` does.
pub open spec fn zero_pad(s: Seq<char>, width: nat) -> Seq<char> {
    if s.len() >= width {
        s
    } else {
        Seq::new((width - s.len()) as nat, |i: int| '0') + s
    }
}

/// Appends the decimal numeral of `n`.
pub fn push_decimal(out: &mut String, n: u64)
    ensures
        final(out)@ == old(out)@ + decimal(n as nat),
    decreases n,
{
    if n >= 10 {
        push_decimal(out, n / 10);
    }
    let d: u64 = n % 10;
    let c = char_of_digit(d);
    push_char(out, c);
    proof {
        if n >= 10 {
            assert(decimal(n as nat) == decimal((n / 10) as nat).push(digit_char((n % 10) as nat)));
        }
    }
    assert(final(out)@ =~= old(out)@ + decimal(n as nat));
}

fn char_of_digit(d: u64) -> (c: char)
    requires
        d < 10,
    ensures
        c == digit_char(d as nat),
{
    if d == 0 { '0' } else if d == 1 { '1' } else if d == 2 { '2' } else if d == 3 { '3' }
    else if d == 4 { '4' } else if d == 5 { '5' } else if d == 6 { '6' } else if d == 7 { '7' }
    else if d == 8 { '8' } else { '9' }
}

/// Number of characters in the decimal numeral of `n`.
pub fn decimal_len(n: u32) -> (r: usize)
    ensures
        r == decimal(n as nat).len(),
        r <= 10,
    decreases n,
{
    if n < 10 {
        1
    } else {
        let k = decimal_len(n / 10);
        proof { lemma_decimal_len_bound(n as nat); }
        k + 1
    }
}

proof fn lemma_decimal_len_bound(n: nat)
    requires
        n <= u32::MAX,
    ensures
        decimal(n).len() <= 10,
{
    reveal_with_fuel(pow10, 11);
    assert(pow10(10) == 10000000000);
    lemma_decimal_len_le(n, 10);
}

/// `decimal(n)` has at most `k` characters when `n < 10^k`.
proof fn lemma_decimal_len_le(n: nat, k: nat)
    requires
        k >= 1,
        n < pow10(k),
    ensures
        decimal(n).len() <= k,
    decreases k,
{
    if n >= 10 {
        assert(k >= 2) by {
            if k == 1 {
                assert(pow10(1) == 10 * pow10(0));
            }
        }
        assert(pow10(k) == 10 * pow10((k - 1) as nat));
        assert(n / 10 < pow10((k - 1) as nat)) by (nonlinear_arith)
            requires n < 10 * pow10((k - 1) as nat);
        lemma_decimal_len_le(n / 10, (k - 1) as nat);
    }
}

pub open spec fn pow10(k: nat) -> nat
    decreases k,
{
    if k == 0 { 1 } else { 10 * pow10((k - 1) as nat) }
}

/// Appends `n` left-padded with zeros to `width` digits (`{:0width}`).
pub fn push_zero_padded(out: &mut String, n: u32, width: usize)
    requires
        width <= 64,
    ensures
        final(out)@ == old(out)@ + zero_pad(decimal(n as nat), width as nat),
{
    let len = decimal_len(n);
    let ghost start = out@;
    if len < width {
        let mut k: usize = 0;
        while k < width - len
            invariant
                k <= width - len,
                len < width,
                out@ == start + Seq::new(k as nat, |i: int| '0'),
            decreases width - len - k,
        {
            push_char(out, '0');
            assert(Seq::new((k + 1) as nat, |i: int| '0') =~= Seq::new(k as nat, |i: int| '0').push('0'));
            k += 1;
        }
    }
    let ghost mid = out@;
    push_decimal(out, n as u64);
    proof {
        if len < width {
            assert(out@ =~= start + zero_pad(decimal(n as nat), width as nat));
        } else {
            assert(mid == start);
            assert(out@ =~= start + zero_pad(decimal(n as nat), width as nat));
        }
    }
}

/// Appends the characters of a string slice.
pub fn push_str(out: &mut String, s: &str)
    ensures
        final(out)@ == old(out)@ + s@,
{
    out.append(s);
}

} // verus!

verus! {

/// Unicode `White_Space`, which is what std's `char::is_whitespace` tests.
pub open spec fn is_ws(c: char) -> bool {
    let u = c as u32;
    ||| 0x9 <= u <= 0xD
    ||| u == 0x20
    ||| u == 0x85
    ||| u == 0xA0
    ||| u == 0x1680
    ||| 0x2000 <= u <= 0x200A
    ||| u == 0x2028
    ||| u == 0x2029
    ||| u == 0x202F
    ||| u == 0x205F
    ||| u == 0x3000
}

pub fn is_whitespace(c: char) -> (r: bool)
    ensures
        r == is_ws(c),
{
    let u = c as u32;
    (0x9 <= u && u <= 0xD) || u == 0x20 || u == 0x85 || u == 0xA0 || u == 0x1680 || (0x2000 <= u
        && u <= 0x200A) || u == 0x2028 || u == 0x2029 || u == 0x202F || u == 0x205F || u == 0x3000
}

/// `s` without its leading whitespace.
pub open spec fn trim_start_spec(s: Seq<char>) -> Seq<char>
    decreases s.len(),
{
    if s.len() > 0 && is_ws(s[0]) {
        trim_start_spec(s.drop_first())
    } else {
        s
    }
}

/// `s` without its trailing whitespace.
pub open spec fn trim_end_spec(s: Seq<char>) -> Seq<char>
    decreases s.len(),
{
    if s.len() > 0 && is_ws(s.last()) {
        trim_end_spec(s.drop_last())
    } else {
        s
    }
}

/// What std's `str::trim` gives.
pub open spec fn trim_spec(s: Seq<char>) -> Seq<char> {
    trim_end_spec(trim_start_spec(s))
}

proof fn lemma_trim_start_skip(s: Seq<char>, k: int)
    requires
        0 <= k <= s.len(),
        forall|i: int| 0 <= i < k ==> is_ws(#[trigger] s[i]),
        k == s.len() || !is_ws(s[k]),
    ensures
        trim_start_spec(s) == s.skip(k),
    decreases k,
{
    if k == 0 {
        assert(s.skip(0) =~= s);
    } else {
        let t = s.drop_first();
        assert forall|i: int| 0 <= i < k - 1 implies is_ws(#[trigger] t[i]) by {
            assert(t[i] == s[i + 1]);
        }
        lemma_trim_start_skip(t, k - 1);
        assert(t.skip(k - 1) =~= s.skip(k));
    }
}

proof fn lemma_trim_end_take(s: Seq<char>, k: int)
    requires
        0 <= k <= s.len(),
        forall|i: int| k <= i < s.len() ==> is_ws(#[trigger] s[i]),
        k == 0 || !is_ws(s[k - 1]),
    ensures
        trim_end_spec(s) == s.take(k),
    decreases s.len() - k,
{
    if k == s.len() {
        assert(s.take(k) =~= s);
    } else {
        let t = s.drop_last();
        lemma_trim_end_take(t, k);
        assert(t.take(k) =~= s.take(k));
    }
}

/// Bounds `(lo, hi)` such that `s[lo..hi]` is `s` trimmed.
pub fn trim_bounds(s: &Vec<char>) -> (r: (usize, usize))
    ensures
        r.0 <= r.1 <= s.len(),
        s@.subrange(r.0 as int, r.1 as int) == trim_spec(s@),
{
    let mut lo: usize = 0;
    while lo < s.len() && is_whitespace(s[lo])
        invariant
            lo <= s.len(),
            forall|i: int| 0 <= i < lo ==> is_ws(#[trigger] s@[i]),
        decreases s.len() - lo,
    {
        lo += 1;
    }
    proof { lemma_trim_start_skip(s@, lo as int); }
    let ghost t = s@.skip(lo as int);
    let mut hi: usize = s.len();
    while hi > lo && is_whitespace(s[hi - 1])
        invariant
            lo <= hi <= s.len(),
            t == s@.skip(lo as int),
            forall|i: int| hi <= i < s.len() ==> is_ws(#[trigger] s@[i]),
        decreases hi,
    {
        hi -= 1;
    }
    proof {
        assert forall|i: int| (hi - lo) <= i < t.len() implies is_ws(#[trigger] t[i]) by {
            assert(t[i] == s@[i + lo]);
        }
        if hi > lo {
            assert(t[hi - lo - 1] == s@[hi - 1]);
        }
        lemma_trim_end_take(t, (hi - lo) as int);
        assert(t.take((hi - lo) as int) =~= s@.subrange(lo as int, hi as int));
    }
    (lo, hi)
}

/// `s` with leading and trailing whitespace removed (std `str::trim`).
pub fn trim(s: &str) -> (r: String)
    ensures
        r@ == trim_spec(s@),
{
    let v = chars_of(s);
    let (lo, hi) = trim_bounds(&v);
    let mut out = String::new();
    let mut i = lo;
    while i < hi
        invariant
            lo <= i <= hi <= v.len(),
            out@ == v@.subrange(lo as int, i as int),
        decreases hi - i,
    {
        push_char(&mut out, v[i]);
        assert(v@.subrange(lo as int, i + 1) =~= v@.subrange(lo as int, i as int).push(v@[i as int]));
        i += 1;
    }
    out
}

/// The pieces of `s` between occurrences of `sep`, as std's `str::split`
/// with a `char` pattern yields them.
pub open spec fn split_spec(s: Seq<char>, sep: char) -> Seq<Seq<char>>
    decreases s.len(),
{
    if s.len() == 0 {
        seq![Seq::<char>::empty()]
    } else {
        let prev = split_spec(s.drop_last(), sep);
        if s.last() == sep {
            prev.push(Seq::<char>::empty())
        } else {
            prev.update(prev.len() - 1, prev.last().push(s.last()))
        }
    }
}

pub proof fn lemma_split_nonempty(s: Seq<char>, sep: char)
    ensures
        split_spec(s, sep).len() >= 1,
    decreases s.len(),
{
    if s.len() > 0 {
        lemma_split_nonempty(s.drop_last(), sep);
    }
}

/// The index ranges of the pieces of `s[start..end]` split at `sep`.
pub fn split_ranges(s: &Vec<char>, start: usize, end: usize, sep: char) -> (r: Vec<(usize, usize)>)
    requires
        start <= end <= s.len(),
    ensures
        r.len() == split_spec(s@.subrange(start as int, end as int), sep).len(),
        forall|k: int|
            0 <= k < r.len() ==> start <= (#[trigger] r@[k]).0 <= r@[k].1 <= end && s@.subrange(
                r@[k].0 as int,
                r@[k].1 as int,
            ) == split_spec(s@.subrange(start as int, end as int), sep)[k],
{
    let mut ranges: Vec<(usize, usize)> = Vec::new();
    let mut cur = start;
    let mut j = start;
    assert(s@.subrange(start as int, start as int) =~= Seq::<char>::empty());
    while j < end
        invariant
            start <= cur <= j <= end <= s.len(),
            ranges.len() + 1 == split_spec(s@.subrange(start as int, j as int), sep).len(),
            forall|k: int|
                0 <= k < ranges.len() ==> start <= (#[trigger] ranges@[k]).0 <= ranges@[k].1 <= cur
                    && s@.subrange(ranges@[k].0 as int, ranges@[k].1 as int) == split_spec(
                    s@.subrange(start as int, j as int),
                    sep,
                )[k],
            s@.subrange(cur as int, j as int) == split_spec(
                s@.subrange(start as int, j as int),
                sep,
            ).last(),
        decreases end - j,
    {
        let ghost old_parts = split_spec(s@.subrange(start as int, j as int), sep);
        let ghost next = s@.subrange(start as int, j + 1);
        assert(next.drop_last() =~= s@.subrange(start as int, j as int));
        assert(next.last() == s@[j as int]);
        if s[j] == sep {
            ranges.push((cur, j));
            cur = j + 1;
            assert(s@.subrange(cur as int, j + 1) =~= Seq::<char>::empty());
        } else {
            assert(s@.subrange(cur as int, j + 1) =~= s@.subrange(cur as int, j as int).push(
                s@[j as int],
            ));
        }
        j += 1;
    }
    ranges.push((cur, end));
    ranges
}

} // verus!

verus! {

/// The result of std's `str::to_lowercase` on a string (full Unicode
/// case mapping).
pub uninterp spec fn lowercase(s: Seq<char>) -> Seq<char>;

/// `c` with `A`-`Z` mapped to `a`-`z`.
pub open spec fn ascii_lower(c: char) -> char {
    if 'A' <= c && c <= 'Z' {
        ((c as u32) + 32) as char
    } else {
        c
    }
}

pub open spec fn all_ascii(s: Seq<char>) -> bool {
    forall|i: int| 0 <= i < s.len() ==> (#[trigger] s[i] as u32) < 128
}

/// std `str::to_lowercase`: the full Unicode lowercase mapping, which on
/// ASCII text maps `A`-`Z` to `a`-`z` and leaves every other character.
#[verifier::external_body]
pub(crate) fn to_lowercase(s: &str) -> (r: String)
    ensures
        r@ == lowercase(s@),
        all_ascii(s@) ==> r@ == s@.map_values(|c: char| ascii_lower(c)),
{
    s.to_lowercase()
}

/// Length in bytes of the UTF-8 text of `s`, as std's `str::len` gives it.
pub open spec fn byte_len(s: &str) -> usize {
    s.spec_bytes().len() as usize
}

/// Length in bytes of the UTF-8 encoding of the characters `s`, as std's
/// `len` gives it for a `String` holding them.
pub open spec fn utf8_len(s: Seq<char>) -> usize {
    vstd::utf8::encode_utf8(s).len() as usize
}

/// Whether two strings hold the same characters.
pub fn same_text(a: &String, b: &String) -> (r: bool)
    ensures
        r == (a@ == b@),
{
    a.eq(b)
}

} // verus!

verus! {

/// A new string holding the characters of `s`.
pub fn owned(s: &str) -> (r: String)
    ensures
        r@ == s@,
{
    let mut r = String::new();
    push_str(&mut r, s);
    r
}

/// Whether a string holds exactly the characters of `lit`.
pub fn equals_str(a: &String, lit: &str) -> (r: bool)
    ensures
        r == (a@ == lit@),
{
    let t = owned(lit);
    a.eq(&t)
}

} // verus!

verus! {

/// Whether `s` begins with `p`.
pub open spec fn starts_with_spec(s: Seq<char>, p: Seq<char>) -> bool {
    p.len() <= s.len() && s.take(p.len() as int) == p
}

/// Whether `t` occurs in `s` as a run of consecutive characters.
pub open spec fn contains_spec(s: Seq<char>, t: Seq<char>) -> bool {
    exists|i: int| 0 <= i && i + t.len() <= s.len() && #[trigger] s.subrange(i, i + t.len()) == t
}

/// Whether `s[at..]` begins with `t`.
fn matches_at(s: &Vec<char>, at: usize, t: &Vec<char>) -> (r: bool)
    requires
        at <= s.len(),
    ensures
        r == (at + t.len() <= s.len() && s@.subrange(at as int, at + t.len()) == t@),
{
    if t.len() > s.len() - at {
        return false;
    }
    let mut j: usize = 0;
    while j < t.len()
        invariant
            j <= t.len(),
            at + t.len() <= s.len(),
            forall|k: int| 0 <= k < j ==> s@[at + k] == #[trigger] t@[k],
        decreases t.len() - j,
    {
        if s[at + j] != t[j] {
            assert(s@.subrange(at as int, at + t.len())[j as int] != t@[j as int]);
            return false;
        }
        j += 1;
    }
    assert(s@.subrange(at as int, at + t.len()) =~= t@);
    true
}

/// Whether the text `s` begins with `p` (std `str::starts_with`).
pub fn starts_with_text(s: &str, p: &str) -> (r: bool)
    ensures
        r == starts_with_spec(s@, p@),
{
    let sv = chars_of(s);
    let pv = chars_of(p);
    let r = matches_at(&sv, 0, &pv);
    proof {
        if pv.len() <= sv.len() {
            assert(sv@.subrange(0, pv.len() as int) =~= sv@.take(pv.len() as int));
        }
    }
    r
}

/// Whether `t` occurs in `s` (std `str::contains` with a string pattern).
pub fn contains_text(s: &str, t: &str) -> (r: bool)
    ensures
        r == contains_spec(s@, t@),
{
    let sv = chars_of(s);
    let tv = chars_of(t);
    if tv.len() > sv.len() {
        return false;
    }
    let mut i: usize = 0;
    loop
        invariant
            tv.len() <= sv.len(),
            i <= sv.len() - tv.len(),
            sv@ == s@,
            tv@ == t@,
            forall|k: int| 0 <= k < i ==> #[trigger] sv@.subrange(k, k + tv.len()) != tv@,
        decreases sv.len() - tv.len() - i,
    {
        if matches_at(&sv, i, &tv) {
            return true;
        }
        if i == sv.len() - tv.len() {
            return false;
        }
        i += 1;
    }
}

} // verus!
