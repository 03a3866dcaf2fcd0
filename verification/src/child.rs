//! Rules on children: what a valid name and birthdate are, and the
//! directory name a child's data is kept under.
use vstd::prelude::*;
use crate::text::{
    byte_len, chars_of, parse_u32_range, parse_u32_spec,
    split_ranges, split_spec, string_from_chars, trim, trim_spec,
};

use crate::calendar::{days_in_month_spec, CalendarService};

verus! {

/// Why a child's name or birthdate was refused.
#[derive(Clone, Copy, Debug, PartialEq, Eq, Structural)]
pub enum ChildValidationError {
    EmptyName,
    NameTooLong,
    BirthdateFormat,
    BirthdateYear,
    BirthdateMonth,
    BirthdateDay,
    YearOutOfRange,
    MonthOutOfRange,
    DayOutOfRange,
    DayNotInMonth,
}

pub open spec fn child_error_message_spec(e: ChildValidationError) -> Seq<char> {
    match e {
        ChildValidationError::EmptyName => "Child name cannot be empty"@,
        ChildValidationError::NameTooLong => "Child name cannot exceed 100 characters"@,
        ChildValidationError::BirthdateFormat => "Invalid birthdate format. Use YYYY-MM-DD."@,
        ChildValidationError::BirthdateYear => "Invalid year in birthdate"@,
        ChildValidationError::BirthdateMonth => "Invalid month in birthdate"@,
        ChildValidationError::BirthdateDay => "Invalid day in birthdate"@,
        ChildValidationError::YearOutOfRange => "Year must be between 1900 and 2100"@,
        ChildValidationError::MonthOutOfRange => "Month must be between 1 and 12"@,
        ChildValidationError::DayOutOfRange => "Day must be between 1 and 31"@,
        ChildValidationError::DayNotInMonth => "Day does not exist in that month"@,
    }
}

impl ChildValidationError {
    /// The message shown for the error.
    pub fn message(&self) -> (r: &'static str)
        ensures
            r@ == child_error_message_spec(*self),
    {
        match self {
            ChildValidationError::EmptyName => "Child name cannot be empty",
            ChildValidationError::NameTooLong => "Child name cannot exceed 100 characters",
            ChildValidationError::BirthdateFormat => "Invalid birthdate format. Use YYYY-MM-DD.",
            ChildValidationError::BirthdateYear => "Invalid year in birthdate",
            ChildValidationError::BirthdateMonth => "Invalid month in birthdate",
            ChildValidationError::BirthdateDay => "Invalid day in birthdate",
            ChildValidationError::YearOutOfRange => "Year must be between 1900 and 2100",
            ChildValidationError::MonthOutOfRange => "Month must be between 1 and 12",
            ChildValidationError::DayOutOfRange => "Day must be between 1 and 31",
            ChildValidationError::DayNotInMonth => "Day does not exist in that month",
        }
    }
}

/// The first objection to a child's name, if any: blank once trimmed, or
/// longer than 100 bytes.
pub open spec fn name_error_spec(name: &str) -> Option<ChildValidationError> {
    if trim_spec(name@).len() == 0 {
        Some(ChildValidationError::EmptyName)
    } else if byte_len(name) > 100 {
        Some(ChildValidationError::NameTooLong)
    } else {
        None
    }
}

/// The first objection to a birthdate, if any. It must be three
/// `-`-separated numbers (each read as std reads a `u32`); then the year
/// must lie in 1900..=2100, the month in 1..=12 and the day in 1..=31,
/// and the day must exist in that month (29 February only in leap years).
pub open spec fn birthdate_error_spec(birthdate: Seq<char>) -> Option<ChildValidationError> {
    let parts = split_spec(birthdate, '-');
    if parts.len() != 3 {
        Some(ChildValidationError::BirthdateFormat)
    } else {
        match (parse_u32_spec(parts[0]), parse_u32_spec(parts[1]), parse_u32_spec(parts[2])) {
            (None, _, _) => Some(ChildValidationError::BirthdateYear),
            (Some(_), None, _) => Some(ChildValidationError::BirthdateMonth),
            (Some(_), Some(_), None) => Some(ChildValidationError::BirthdateDay),
            (Some(y), Some(m), Some(d)) => {
                if y < 1900 || y > 2100 {
                    Some(ChildValidationError::YearOutOfRange)
                } else if m < 1 || m > 12 {
                    Some(ChildValidationError::MonthOutOfRange)
                } else if d < 1 || d > 31 {
                    Some(ChildValidationError::DayOutOfRange)
                } else if d > days_in_month_spec(m, y) {
                    Some(ChildValidationError::DayNotInMonth)
                } else {
                    None
                }
            },
        }
    }
}

/// Checks a child's name.
pub fn validate_name(name: &str) -> (r: Result<(), ChildValidationError>)
    ensures
        r == (match name_error_spec(name) {
            Some(e) => Err(e),
            None => Ok(()),
        }),
{
    let t = trim(name);
    if t.as_str().is_empty() {
        Err(ChildValidationError::EmptyName)
    } else if name.len() > 100 {
        Err(ChildValidationError::NameTooLong)
    } else {
        Ok(())
    }
}

/// Checks that a birthdate reads as `YYYY-MM-DD` within the accepted ranges.
pub fn validate_birthdate(birthdate: &str) -> (r: Result<(), ChildValidationError>)
    ensures
        r == (match birthdate_error_spec(birthdate@) {
            Some(e) => Err(e),
            None => Ok(()),
        }),
{
    let v = chars_of(birthdate);
    let parts = split_ranges(&v, 0, v.len(), '-');
    assert(v@.subrange(0, v@.len() as int) =~= birthdate@);
    if parts.len() != 3 {
        return Err(ChildValidationError::BirthdateFormat);
    }
    let (a0, b0) = parts[0];
    let (a1, b1) = parts[1];
    let (a2, b2) = parts[2];
    let year = match parse_u32_range(&v, a0, b0) {
        Some(y) => y,
        None => return Err(ChildValidationError::BirthdateYear),
    };
    let month = match parse_u32_range(&v, a1, b1) {
        Some(m) => m,
        None => return Err(ChildValidationError::BirthdateMonth),
    };
    let day = match parse_u32_range(&v, a2, b2) {
        Some(d) => d,
        None => return Err(ChildValidationError::BirthdateDay),
    };
    if year < 1900 || year > 2100 {
        Err(ChildValidationError::YearOutOfRange)
    } else if month < 1 || month > 12 {
        Err(ChildValidationError::MonthOutOfRange)
    } else if day < 1 || day > 31 {
        Err(ChildValidationError::DayOutOfRange)
    } else if day > CalendarService::new().days_in_month(month, year) {
        Err(ChildValidationError::DayNotInMonth)
    } else {
        Ok(())
    }
}

/// The checks made before a child is created: the name, then the birthdate.
pub fn validate_create_command(name: &str, birthdate: &str) -> (r: Result<(), ChildValidationError>)
    ensures
        r == (match name_error_spec(name) {
            Some(e) => Err(e),
            None => match birthdate_error_spec(birthdate@) {
                Some(e) => Err(e),
                None => Ok(()),
            },
        }),
{
    match validate_name(name) {
        Err(e) => Err(e),
        Ok(()) => validate_birthdate(birthdate),
    }
}

/// The checks made before a child is updated: each field that is given.
pub fn validate_update_command(name: Option<&str>, birthdate: Option<&str>) -> (r: Result<
    (),
    ChildValidationError,
>)
    ensures
        r == (match (name, birthdate) {
            (Some(n), _) if name_error_spec(n) is Some => Err(name_error_spec(n)->0),
            (_, Some(b)) if birthdate_error_spec(b@) is Some => Err(birthdate_error_spec(b@)->0),
            _ => Ok(()),
        }),
{
    if let Some(n) = name {
        match validate_name(n) {
            Err(e) => {
                return Err(e);
            },
            Ok(()) => {},
        }
    }
    if let Some(b) = birthdate {
        match validate_birthdate(b) {
            Err(e) => {
                return Err(e);
            },
            Ok(()) => {},
        }
    }
    Ok(())
}

/// The id of a child created at `epoch_millis`: `child::{millis}`.
pub fn generate_child_id(epoch_millis: u64) -> (r: String)
    ensures
        r@ == "child::"@ + crate::text::decimal(epoch_millis as nat),
{
    let mut r = crate::text::owned("child::");
    crate::text::push_decimal(&mut r, epoch_millis);
    r
}

/// Unicode alphanumeric (Alphabetic or Numeric), as std's
/// `char::is_alphanumeric` decides it.
pub uninterp spec fn alphanumeric(c: char) -> bool;

pub open spec fn is_ascii_alnum(c: char) -> bool {
    ('a' <= c && c <= 'z') || ('A' <= c && c <= 'Z') || ('0' <= c && c <= '9')
}

/// A whitespace character, as std's `char::is_whitespace` decides: one
/// with the Unicode White_Space property.
pub open spec fn unicode_whitespace(c: char) -> bool {
    ||| c == ' '
    ||| ('\t' <= c && c <= '\r')
    ||| c == '\u{85}'
    ||| c == '\u{A0}'
    ||| c == '\u{1680}'
    ||| ('\u{2000}' <= c && c <= '\u{200A}')
    ||| c == '\u{2028}'
    ||| c == '\u{2029}'
    ||| c == '\u{202F}'
    ||| c == '\u{205F}'
    ||| c == '\u{3000}'
}

/// Whether a character counts as alphanumeric for directory names, as
/// std's `char::is_alphanumeric` decides: on ASCII, exactly the letters and
/// digits; never for a whitespace character; otherwise `alphanumeric(c)`.
pub open spec fn alnum(c: char) -> bool {
    if (c as u32) < 128 {
        is_ascii_alnum(c)
    } else if unicode_whitespace(c) {
        false
    } else {
        alphanumeric(c)
    }
}

/// std's `char::is_alphanumeric` (Alphabetic or Numeric). Claimed: the
/// result is `alnum(c)`: on ASCII characters it holds exactly for letters
/// and digits; it never holds for a White_Space character, none of which
/// is Alphabetic or Numeric; otherwise it is `alphanumeric(c)`.
#[verifier::external_body]
fn is_alphanumeric(c: char) -> (r: bool)
    ensures
        r == alnum(c),
        r == alphanumeric(c),
{
    c.is_alphanumeric()
}

/// The plain letter that an accented Latin letter of the directory rule
/// stands for.
pub open spec fn unaccented(c: char) -> Option<char> {
    if c == 'á' || c == 'à' || c == 'ä' || c == 'â' {
        Some('a')
    } else if c == 'é' || c == 'è' || c == 'ë' || c == 'ê' {
        Some('e')
    } else if c == 'í' || c == 'ì' || c == 'ï' || c == 'î' {
        Some('i')
    } else if c == 'ó' || c == 'ò' || c == 'ö' || c == 'ô' {
        Some('o')
    } else if c == 'ú' || c == 'ù' || c == 'ü' || c == 'û' {
        Some('u')
    } else if c == 'ñ' {
        Some('n')
    } else if c == 'ç' {
        Some('c')
    } else {
        None
    }
}

/// `c` with `A`-`Z` mapped to `a`-`z` (std `char::to_ascii_lowercase`).
pub open spec fn ascii_lowercase(c: char) -> char {
    if 'A' <= c && c <= 'Z' {
        ((c as u32) + 32) as char
    } else {
        c
    }
}

/// What one character of a name becomes in its directory name: an
/// accented letter its plain letter, any other alphanumeric character
/// itself with ASCII lowercased, anything else `_`.
pub open spec fn directory_char(c: char) -> char {
    match unaccented(c) {
        Some(p) => p,
        None => if alnum(c) {
            ascii_lowercase(c)
        } else {
            '_'
        },
    }
}

/// `s` without leading `_`.
pub open spec fn strip_leading_underscores(s: Seq<char>) -> Seq<char>
    decreases s.len(),
{
    if s.len() > 0 && s[0] == '_' {
        strip_leading_underscores(s.drop_first())
    } else {
        s
    }
}

/// `s` without trailing `_`.
pub open spec fn strip_trailing_underscores(s: Seq<char>) -> Seq<char>
    decreases s.len(),
{
    if s.len() > 0 && s.last() == '_' {
        strip_trailing_underscores(s.drop_last())
    } else {
        s
    }
}

/// `s` with each run of `_` shortened to a single `_`.
pub open spec fn collapse_underscores(s: Seq<char>) -> Seq<char>
    decreases s.len(),
{
    if s.len() == 0 {
        s
    } else {
        let r = collapse_underscores(s.drop_last());
        if s.last() == '_' && r.len() > 0 && r.last() == '_' {
            r
        } else {
            r.push(s.last())
        }
    }
}

/// The directory name for a child's name: each character mapped by
/// `directory_char`, each run of `_` made one, then `_` trimmed from
/// both ends.
pub open spec fn safe_directory_name_spec(name: Seq<char>) -> Seq<char> {
    strip_trailing_underscores(
        strip_leading_underscores(
            collapse_underscores(name.map_values(|c: char| directory_char(c))),
        ),
    )
}

/// No two `_` in a row.
pub open spec fn no_double_underscore(s: Seq<char>) -> bool {
    forall|i: int| 0 <= i < s.len() - 1 ==> !(#[trigger] s[i] == '_' && s[i + 1] == '_')
}

proof fn lemma_collapse_no_double(s: Seq<char>)
    ensures
        no_double_underscore(collapse_underscores(s)),
    decreases s.len(),
{
    if s.len() > 0 {
        lemma_collapse_no_double(s.drop_last());
        let r = collapse_underscores(s.drop_last());
        if !(s.last() == '_' && r.len() > 0 && r.last() == '_') {
            let t = r.push(s.last());
            assert forall|i: int| 0 <= i < t.len() - 1 implies !(#[trigger] t[i] == '_' && t[i + 1]
                == '_') by {
                if i < r.len() - 1 {
                    assert(t[i] == r[i] && t[i + 1] == r[i + 1]);
                }
            }
        }
    }
}

proof fn lemma_strip_leading_keeps(s: Seq<char>)
    requires
        no_double_underscore(s),
    ensures
        no_double_underscore(strip_leading_underscores(s)),
        strip_leading_underscores(s).len() > 0 ==> strip_leading_underscores(s)[0] != '_',
    decreases s.len(),
{
    if s.len() > 0 && s[0] == '_' {
        let t = s.drop_first();
        assert forall|i: int| 0 <= i < t.len() - 1 implies !(#[trigger] t[i] == '_' && t[i + 1]
            == '_') by {
            assert(t[i] == s[i + 1] && t[i + 1] == s[i + 2]);
        }
        lemma_strip_leading_keeps(t);
    }
}

proof fn lemma_strip_trailing_keeps(s: Seq<char>)
    requires
        no_double_underscore(s),
    ensures
        no_double_underscore(strip_trailing_underscores(s)),
        strip_trailing_underscores(s).len() > 0 ==> strip_trailing_underscores(s).last() != '_'
            && strip_trailing_underscores(s)[0] == s[0],
    decreases s.len(),
{
    if s.len() > 0 && s.last() == '_' {
        let t = s.drop_last();
        assert forall|i: int| 0 <= i < t.len() - 1 implies !(#[trigger] t[i] == '_' && t[i + 1]
            == '_') by {
            assert(t[i] == s[i] && t[i + 1] == s[i + 1]);
        }
        lemma_strip_trailing_keeps(t);
    }
}

/// A child's directory name never starts or ends with `_` and never has
/// two `_` in a row.
pub proof fn lemma_safe_directory_name_shape(name: Seq<char>)
    ensures
        ({
            let r = safe_directory_name_spec(name);
            &&& no_double_underscore(r)
            &&& r.len() > 0 ==> r[0] != '_' && r.last() != '_'
        }),
{
    let c = collapse_underscores(name.map_values(|c: char| directory_char(c)));
    lemma_collapse_no_double(name.map_values(|c: char| directory_char(c)));
    lemma_strip_leading_keeps(c);
    lemma_strip_trailing_keeps(strip_leading_underscores(c));
}

/// `c` is left as it is by the directory rule.
pub open spec fn directory_fixed(c: char) -> bool {
    directory_char(c) == c
}

pub open spec fn all_directory_fixed(s: Seq<char>) -> bool {
    forall|i: int| 0 <= i < s.len() ==> directory_fixed(#[trigger] s[i])
}

proof fn lemma_directory_char_fixed(c: char)
    ensures
        directory_fixed(directory_char(c)),
{
}

proof fn lemma_fixed_is_plain(c: char)
    requires
        directory_fixed(c),
    ensures
        !('A' <= c && c <= 'Z'),
        !unicode_whitespace(c),
{
}

/// The plain ASCII letter each accented letter of the directory rule is
/// written as.
pub open spec fn plain_letter_of(c: char) -> Option<char> {
    if c == 'ä' || c == 'á' || c == 'â' || c == 'à' {
        Some('a')
    } else if c == 'ë' || c == 'ê' || c == 'é' || c == 'è' {
        Some('e')
    } else if c == 'ï' || c == 'î' || c == 'í' || c == 'ì' {
        Some('i')
    } else if c == 'ö' || c == 'ô' || c == 'ó' || c == 'ò' {
        Some('o')
    } else if c == 'ü' || c == 'û' || c == 'ú' || c == 'ù' {
        Some('u')
    } else if c == 'ñ' {
        Some('n')
    } else if c == 'ç' {
        Some('c')
    } else {
        None
    }
}

proof fn lemma_fixed_is_unaccented(c: char)
    requires
        directory_fixed(c),
    ensures
        plain_letter_of(c) is None,
{
}

proof fn lemma_collapse_keeps_fixed(s: Seq<char>)
    requires
        all_directory_fixed(s),
    ensures
        all_directory_fixed(collapse_underscores(s)),
    decreases s.len(),
{
    if s.len() > 0 {
        let t = s.drop_last();
        assert forall|i: int| 0 <= i < t.len() implies directory_fixed(#[trigger] t[i]) by {
            assert(t[i] == s[i]);
        }
        lemma_collapse_keeps_fixed(t);
        let r = collapse_underscores(t);
        assert(directory_fixed(s[s.len() - 1]));
        if !(s.last() == '_' && r.len() > 0 && r.last() == '_') {
            let u = r.push(s.last());
            assert forall|i: int| 0 <= i < u.len() implies directory_fixed(#[trigger] u[i]) by {
                if i < r.len() {
                    assert(u[i] == r[i]);
                }
            }
        }
    }
}

proof fn lemma_strip_leading_keeps_fixed(s: Seq<char>)
    requires
        all_directory_fixed(s),
    ensures
        all_directory_fixed(strip_leading_underscores(s)),
    decreases s.len(),
{
    if s.len() > 0 && s[0] == '_' {
        let t = s.drop_first();
        assert forall|i: int| 0 <= i < t.len() implies directory_fixed(#[trigger] t[i]) by {
            assert(t[i] == s[i + 1]);
        }
        lemma_strip_leading_keeps_fixed(t);
    }
}

proof fn lemma_strip_trailing_keeps_fixed(s: Seq<char>)
    requires
        all_directory_fixed(s),
    ensures
        all_directory_fixed(strip_trailing_underscores(s)),
    decreases s.len(),
{
    if s.len() > 0 && s.last() == '_' {
        let t = s.drop_last();
        assert forall|i: int| 0 <= i < t.len() implies directory_fixed(#[trigger] t[i]) by {
            assert(t[i] == s[i]);
        }
        lemma_strip_trailing_keeps_fixed(t);
    }
}

proof fn lemma_collapse_identity(s: Seq<char>)
    requires
        no_double_underscore(s),
    ensures
        collapse_underscores(s) == s,
    decreases s.len(),
{
    if s.len() > 0 {
        let t = s.drop_last();
        assert forall|i: int| 0 <= i < t.len() - 1 implies !(#[trigger] t[i] == '_' && t[i + 1]
            == '_') by {
            assert(t[i] == s[i] && t[i + 1] == s[i + 1]);
        }
        lemma_collapse_identity(t);
        if s.len() >= 2 {
            assert(!(s[s.len() - 2] == '_' && s[s.len() - 1] == '_'));
        }
        assert(t.push(s.last()) =~= s);
    }
}

/// The directory name is a fixed point of the rule, and holds no ASCII
/// uppercase letter and no whitespace; it never starts or ends with `_`.
pub proof fn lemma_safe_directory_name_is_settled(name: Seq<char>)
    ensures
        ({
            let r = safe_directory_name_spec(name);
            &&& safe_directory_name_spec(r) == r
            &&& r.len() > 0 ==> r[0] != '_' && r.last() != '_'
            &&& forall|i: int|
                0 <= i < r.len() ==> !('A' <= #[trigger] r[i] && r[i] <= 'Z') && !unicode_whitespace(
                    r[i],
                )
        }),
{
    let m = name.map_values(|c: char| directory_char(c));
    assert forall|i: int| 0 <= i < m.len() implies directory_fixed(#[trigger] m[i]) by {
        lemma_directory_char_fixed(name[i]);
    }
    let c = collapse_underscores(m);
    lemma_collapse_keeps_fixed(m);
    let l = strip_leading_underscores(c);
    lemma_strip_leading_keeps_fixed(c);
    let r = strip_trailing_underscores(l);
    lemma_strip_trailing_keeps_fixed(l);
    assert(r == safe_directory_name_spec(name));
    lemma_safe_directory_name_shape(name);
    assert forall|i: int| 0 <= i < r.len() implies !('A' <= #[trigger] r[i] && r[i] <= 'Z')
        && !unicode_whitespace(r[i]) by {
        lemma_fixed_is_plain(r[i]);
    }
    let m2 = r.map_values(|c: char| directory_char(c));
    assert(m2 =~= r);
    lemma_collapse_identity(r);
    assert(strip_leading_underscores(r) == r);
    assert(strip_trailing_underscores(r) == r);
}

/// Accented letters are written plainly: no directory name holds any of
/// the accented letters á à ä â é è ë ê í ì ï î ó ò ö ô ú ù ü û ñ ç, and
/// writing such a letter of a name as its plain ASCII letter (ë as e, ñ as
/// n, ...) gives the same directory name; so "Zoë" and "Zoe" both give
/// "zoe".
pub proof fn lemma_accents_written_plainly(name: Seq<char>, i: int)
    ensures
        forall|k: int|
            0 <= k < safe_directory_name_spec(name).len() ==> plain_letter_of(
                #[trigger] safe_directory_name_spec(name)[k],
            ) is None,
        0 <= i < name.len() && plain_letter_of(name[i]) is Some ==> safe_directory_name_spec(name)
            == safe_directory_name_spec(name.update(i, plain_letter_of(name[i])->0)),
{
    let r = safe_directory_name_spec(name);
    let m = name.map_values(|c: char| directory_char(c));
    assert forall|j: int| 0 <= j < m.len() implies directory_fixed(#[trigger] m[j]) by {
        lemma_directory_char_fixed(name[j]);
    }
    let c = collapse_underscores(m);
    lemma_collapse_keeps_fixed(m);
    let l = strip_leading_underscores(c);
    lemma_strip_leading_keeps_fixed(c);
    lemma_strip_trailing_keeps_fixed(l);
    assert forall|k: int| 0 <= k < r.len() implies plain_letter_of(#[trigger] r[k]) is None by {
        lemma_fixed_is_unaccented(r[k]);
    }
    if 0 <= i < name.len() && plain_letter_of(name[i]) is Some {
        let p = plain_letter_of(name[i])->0;
        let n2 = name.update(i, p);
        assert(directory_char(p) == p);
        assert(directory_char(name[i]) == p);
        assert(n2.map_values(|c: char| directory_char(c)) =~= m);
    }
}

proof fn lemma_strip_leading(s: Seq<char>, k: int)
    requires
        0 <= k <= s.len(),
        forall|i: int| 0 <= i < k ==> #[trigger] s[i] == '_',
        k == s.len() || s[k] != '_',
    ensures
        strip_leading_underscores(s) == s.skip(k),
    decreases k,
{
    if k == 0 {
        assert(s.skip(0) =~= s);
    } else {
        let t = s.drop_first();
        assert forall|i: int| 0 <= i < k - 1 implies #[trigger] t[i] == '_' by {
            assert(t[i] == s[i + 1]);
        }
        lemma_strip_leading(t, k - 1);
        assert(t.skip(k - 1) =~= s.skip(k));
    }
}

proof fn lemma_strip_trailing(s: Seq<char>, k: int)
    requires
        0 <= k <= s.len(),
        forall|i: int| k <= i < s.len() ==> #[trigger] s[i] == '_',
        k == 0 || s[k - 1] != '_',
    ensures
        strip_trailing_underscores(s) == s.take(k),
    decreases s.len() - k,
{
    if k == s.len() {
        assert(s.take(k) =~= s);
    } else {
        let t = s.drop_last();
        lemma_strip_trailing(t, k);
        assert(t.take(k) =~= s.take(k));
    }
}

fn directory_char_of(c: char) -> (r: char)
    ensures
        r == directory_char(c),
{
    if c == 'á' || c == 'à' || c == 'ä' || c == 'â' {
        'a'
    } else if c == 'é' || c == 'è' || c == 'ë' || c == 'ê' {
        'e'
    } else if c == 'í' || c == 'ì' || c == 'ï' || c == 'î' {
        'i'
    } else if c == 'ó' || c == 'ò' || c == 'ö' || c == 'ô' {
        'o'
    } else if c == 'ú' || c == 'ù' || c == 'ü' || c == 'û' {
        'u'
    } else if c == 'ñ' {
        'n'
    } else if c == 'ç' {
        'c'
    } else if is_alphanumeric(c) {
        if 'A' <= c && c <= 'Z' {
            let b: u8 = (c as u8) + 32;
            b as char
        } else {
            c
        }
    } else {
        '_'
    }
}

/// A file-system-safe directory name for a child: accented Latin letters
/// become plain ones, other letters and digits stay (ASCII ones
/// lowercased), anything else becomes `_`, a run of `_` becomes one, and
/// `_` is trimmed from both ends. "Emma Smith" gives "emma_smith",
/// "José María" "jose_maria", "Kid #1" "kid_1".
pub fn generate_safe_directory_name(child_name: &str) -> (r: String)
    ensures
        r@ == safe_directory_name_spec(child_name@),
{
    let v = chars_of(child_name);
    let mut mapped: Vec<char> = Vec::new();
    let mut i: usize = 0;
    while i < v.len()
        invariant
            i <= v.len(),
            v@ == child_name@,
            mapped@ == v@.take(i as int).map_values(|c: char| directory_char(c)),
        decreases v.len() - i,
    {
        let c = directory_char_of(v[i]);
        mapped.push(c);
        assert(v@.take(i + 1).map_values(|c: char| directory_char(c)) =~= v@.take(
            i as int,
        ).map_values(|c: char| directory_char(c)).push(directory_char(v@[i as int])));
        i += 1;
    }
    assert(v@.take(i as int) =~= v@);
    let mut collapsed: Vec<char> = Vec::new();
    let mut k0: usize = 0;
    while k0 < mapped.len()
        invariant
            k0 <= mapped.len(),
            collapsed@ == collapse_underscores(mapped@.take(k0 as int)),
        decreases mapped.len() - k0,
    {
        let c = mapped[k0];
        assert(mapped@.take(k0 + 1).drop_last() =~= mapped@.take(k0 as int));
        let n = collapsed.len();
        if !(c == '_' && n > 0 && collapsed[n - 1] == '_') {
            collapsed.push(c);
        }
        k0 += 1;
    }
    assert(mapped@.take(k0 as int) =~= mapped@);
    let mapped = collapsed;
    let ghost m = mapped@;
    let mut lo: usize = 0;
    while lo < mapped.len() && mapped[lo] == '_'
        invariant
            lo <= mapped.len(),
            m == mapped@,
            forall|j: int| 0 <= j < lo ==> #[trigger] m[j] == '_',
        decreases mapped.len() - lo,
    {
        lo += 1;
    }
    proof {
        lemma_strip_leading(m, lo as int);
    }
    let ghost t = m.skip(lo as int);
    let mut hi: usize = mapped.len();
    while hi > lo && mapped[hi - 1] == '_'
        invariant
            lo <= hi <= mapped.len(),
            m == mapped@,
            t == m.skip(lo as int),
            forall|j: int| hi <= j < m.len() ==> #[trigger] m[j] == '_',
        decreases hi,
    {
        hi -= 1;
    }
    proof {
        assert forall|j: int| (hi - lo) <= j < t.len() implies #[trigger] t[j] == '_' by {
            assert(t[j] == m[j + lo]);
        }
        if hi > lo {
            assert(t[hi - lo - 1] == m[hi - 1]);
        }
        lemma_strip_trailing(t, (hi - lo) as int);
        assert(t.take((hi - lo) as int) =~= m.subrange(lo as int, hi as int));
    }
    let mut out: Vec<char> = Vec::new();
    let mut k = lo;
    while k < hi
        invariant
            lo <= k <= hi <= mapped.len(),
            out@ == mapped@.subrange(lo as int, k as int),
        decreases hi - k,
    {
        out.push(mapped[k]);
        assert(mapped@.subrange(lo as int, k + 1) =~= mapped@.subrange(lo as int, k as int).push(
            mapped@[k as int],
        ));
        k += 1;
    }
    string_from_chars(&out)
}

} // verus!
