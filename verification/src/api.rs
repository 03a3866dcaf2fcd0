//! Request and response shapes of the HTTP interface, and the small
//! rules its handlers apply: log lines and levels, the end of a calendar
//! month as a timestamp, and the cleaning of a path typed by a user.
use vstd::prelude::*;
use crate::calendar::days_in_month_spec;
use crate::storage::{join_spec, replace_spec, replace_text};
use crate::text::{
    decimal, equals_str, lowercase, owned, push_str, push_zero_padded, to_lowercase,
    trim, trim_spec, zero_pad,
};
use crate::transactions::TransactionListQuery;

verus! {

/// Query of the transaction list endpoint.
#[derive(Clone, Debug)]
pub struct ListTransactionsQueryParams {
    pub after: Option<String>,
    pub limit: Option<u32>,
    pub start_date: Option<String>,
    pub end_date: Option<String>,
}

impl ListTransactionsQueryParams {
    /// The domain query with the same fields.
    pub fn to_query(self) -> (r: TransactionListQuery)
        ensures
            r.after == self.after,
            r.limit == self.limit,
            r.start_date == self.start_date,
            r.end_date == self.end_date,
    {
        TransactionListQuery {
            after: self.after,
            limit: self.limit,
            start_date: self.start_date,
            end_date: self.end_date,
        }
    }
}

/// Query of the calendar month endpoint.
#[derive(Clone, Copy, Debug, PartialEq, Eq, Structural)]
pub struct CalendarMonthQuery {
    pub month: u32,
    pub year: u32,
}

/// Query of the transaction table endpoint.
#[derive(Clone, Debug)]
pub struct TransactionTableQuery {
    pub limit: Option<u32>,
    pub after: Option<String>,
}

/// Body of the transaction validation endpoint.
#[derive(Clone, Debug)]
pub struct ValidateTransactionRequest {
    pub description: String,
    pub amount: String,
}

/// Body of the add-money validation endpoint.
#[derive(Clone, Debug)]
pub struct ValidateAddMoneyRequest {
    pub description: String,
    pub amount_input: String,
}

/// Body of the file-writing endpoint.
#[derive(Clone, Debug)]
pub struct WriteFileRequest {
    pub file_path: String,
    pub content: String,
}

/// Answer of the file-writing endpoint.
#[derive(Clone, Debug)]
pub struct WriteFileResponse {
    pub success: bool,
    pub message: String,
}

/// The answer after a file was written.
pub fn file_written_response(file_path: &str) -> (r: WriteFileResponse)
    ensures
        r.success,
        r.message@ == "File written successfully to: "@ + file_path@,
{
    let mut m = owned("File written successfully to: ");
    push_str(&mut m, file_path);
    WriteFileResponse { success: true, message: m }
}

/// The answer after writing a file failed with `error`.
pub fn file_write_failed_response(error: &str) -> (r: WriteFileResponse)
    ensures
        !r.success,
        r.message@ == "Failed to write file: "@ + error@,
{
    let mut m = owned("Failed to write file: ");
    push_str(&mut m, error);
    WriteFileResponse { success: false, message: m }
}

/// A log line sent by the user interface.
#[derive(Clone, Debug)]
pub struct LogRequest {
    pub level: String,
    pub message: String,
    pub component: Option<String>,
}

/// Answer of the logging endpoint.
#[derive(Clone, Copy, Debug, PartialEq, Eq, Structural)]
pub struct LogResponse {
    pub success: bool,
}

/// The level a log line is written at.
#[derive(Clone, Copy, Debug, PartialEq, Eq, Structural)]
pub enum LogLevel {
    Debug,
    Info,
    Warn,
    Error,
}

/// The level named by `level`, compared lowercased; unknown names log at
/// info.
pub open spec fn log_level_spec(level: Seq<char>) -> LogLevel {
    let l = lowercase(level);
    if l == "debug"@ {
        LogLevel::Debug
    } else if l == "warn"@ {
        LogLevel::Warn
    } else if l == "error"@ {
        LogLevel::Error
    } else {
        LogLevel::Info
    }
}

/// The line written for a log request: `[component] message`, the
/// component defaulting to "frontend".
pub open spec fn log_line_spec(component: Option<Seq<char>>, message: Seq<char>) -> Seq<char> {
    let c = match component {
        Some(c) => c,
        None => "frontend"@,
    };
    "["@ + c + "] "@ + message
}

impl LogRequest {
    pub fn level(&self) -> (r: LogLevel)
        ensures
            r == log_level_spec(self.level@),
    {
        let l = to_lowercase(self.level.as_str());
        if equals_str(&l, "debug") {
            LogLevel::Debug
        } else if equals_str(&l, "warn") {
            LogLevel::Warn
        } else if equals_str(&l, "error") {
            LogLevel::Error
        } else {
            LogLevel::Info
        }
    }

    pub fn line(&self) -> (r: String)
        ensures
            r@ == log_line_spec(
                match self.component {
                    Some(c) => Some(c@),
                    None => None,
                },
                self.message@,
            ),
    {
        let mut r = owned("[");
        match &self.component {
            Some(c) => push_str(&mut r, c.as_str()),
            None => push_str(&mut r, "frontend"),
        }
        push_str(&mut r, "] ");
        push_str(&mut r, self.message.as_str());
        r
    }

    /// Logging always succeeds.
    pub fn response(&self) -> (r: LogResponse)
        ensures
            r.success,
    {
        LogResponse { success: true }
    }
}

/// The last second of a month, `YYYY-MM-DDT23:59:59Z`, used as the end of
/// the calendar's transaction query.
pub fn month_end_timestamp(month: u32, year: u32) -> (r: String)
    ensures
        r@ == zero_pad(decimal(year as nat), 4) + "-"@ + zero_pad(decimal(month as nat), 2) + "-"@
            + zero_pad(decimal(days_in_month_spec(month, year) as nat), 2) + "T23:59:59Z"@,
{
    let days = crate::calendar::CalendarService::new().days_in_month(month, year);
    let mut r = String::new();
    push_zero_padded(&mut r, year, 4);
    push_str(&mut r, "-");
    push_zero_padded(&mut r, month, 2);
    push_str(&mut r, "-");
    push_zero_padded(&mut r, days, 2);
    push_str(&mut r, "T23:59:59Z");
    r
}

/// Text surrounded by a matching pair of `"` or `'`.
pub open spec fn is_quoted(s: Seq<char>) -> bool {
    s.len() > 0 && ((s[0] == '"' && s.last() == '"') || (s[0] == '\'' && s.last() == '\''))
}

/// `s` without trailing `/` and `\`.
pub open spec fn strip_trailing_separators(s: Seq<char>) -> Seq<char>
    decreases s.len(),
{
    if s.len() > 0 && (s.last() == '/' || s.last() == '\\') {
        strip_trailing_separators(s.drop_last())
    } else {
        s
    }
}

/// A leading `~` replaced by the home directory, when there is one: `~`
/// alone becomes it, `~/rest` and `~\rest` become it joined with `rest`.
pub open spec fn expand_home(s: Seq<char>, home: Option<Seq<char>>) -> Seq<char> {
    match home {
        Some(h) => if s == "~"@ {
            h
        } else if s.len() >= 2 && s[0] == '~' && (s[1] == '/' || s[1] == '\\') {
            join_spec(h, s.skip(2))
        } else {
            s
        },
        None => s,
    }
}

/// A path typed by a user, cleaned: trimmed, one pair of surrounding
/// quotes removed, trimmed again, `\ ` unescaped, trailing separators
/// removed, and a leading `~` expanded.
pub open spec fn sanitize_path_spec(path: Seq<char>, home: Option<Seq<char>>) -> Seq<char> {
    let a = trim_spec(path);
    let b = if is_quoted(a) {
        a.subrange(1, a.len() - 1)
    } else {
        a
    };
    let c = trim_spec(b);
    let d = replace_spec(c, "\\ "@, " "@);
    expand_home(strip_trailing_separators(d), home)
}

/// The quote removal slices between the quotes, which std refuses for a
/// lone quote character.
pub open spec fn sanitizable_path(path: Seq<char>) -> bool {
    !(is_quoted(trim_spec(path)) && trim_spec(path).len() == 1)
}

/// The home directory of the user running the app (the `dirs` crate's
/// `home_dir`), as text. Nothing is claimed of it: it depends on the
/// environment.
#[verifier::external_body]
fn home_dir() -> (r: Option<String>) {
    match dirs::home_dir() {
        Some(h) => Some(h.to_string_lossy().into_owned()),
        None => None,
    }
}

/// Cleans a path typed by a user, given the home directory.
pub fn sanitize_path_with_home(path: &str, home: Option<&str>) -> (r: String)
    requires
        sanitizable_path(path@),
    ensures
        r@ == sanitize_path_spec(
            path@,
            match home {
                Some(h) => Some(h@),
                None => None,
            },
        ),
{
    let a = crate::text::chars_of(trim(path).as_str());
    let mut b: Vec<char> = Vec::new();
    let quoted = a.len() > 0 && ((a[0] == '"' && a[a.len() - 1] == '"') || (a[0] == '\''
        && a[a.len() - 1] == '\''));
    let (lo, hi) = if quoted {
        (1, a.len() - 1)
    } else {
        (0, a.len())
    };
    let mut i = lo;
    while i < hi
        invariant
            lo <= i <= hi <= a.len(),
            b@ == a@.subrange(lo as int, i as int),
        decreases hi - i,
    {
        b.push(a[i]);
        assert(a@.subrange(lo as int, i + 1) =~= a@.subrange(lo as int, i as int).push(a@[i as int]));
        i += 1;
    }
    assert(quoted == is_quoted(a@));
    assert(b@ == (if is_quoted(a@) {
        a@.subrange(1, a@.len() - 1)
    } else {
        a@
    })) by {
        if !quoted {
            assert(a@.subrange(0, a@.len() as int) =~= a@);
        }
    }
    let bs = crate::text::string_from_chars(&b);
    let c = trim(bs.as_str());
    proof {
        reveal_strlit("\\ ");
    }
    let d = replace_text(c.as_str(), "\\ ", " ");
    let dv = crate::text::chars_of(d.as_str());
    let mut end = dv.len();
    assert(dv@.take(dv.len() as int) =~= dv@);
    while end > 0 && (dv[end - 1] == '/' || dv[end - 1] == '\\')
        invariant
            end <= dv.len(),
            strip_trailing_separators(dv@) == strip_trailing_separators(dv@.take(end as int)),
        decreases end,
    {
        assert(dv@.take(end as int).drop_last() =~= dv@.take(end - 1));
        end -= 1;
    }
    assert(dv@.take(dv.len() as int) =~= dv@);
    let mut e: Vec<char> = Vec::new();
    let mut k: usize = 0;
    while k < end
        invariant
            k <= end <= dv.len(),
            e@ == dv@.take(k as int),
        decreases end - k,
    {
        e.push(dv[k]);
        assert(dv@.take(k + 1) =~= dv@.take(k as int).push(dv@[k as int]));
        k += 1;
    }
    assert(e@ == dv@.take(end as int));
    assert(strip_trailing_separators(dv@.take(end as int)) == dv@.take(end as int));
    let stripped = crate::text::string_from_chars(&e);
    let ghost sv = e@;
    assert(sv == strip_trailing_separators(d@));
    match home {
        Some(h) => {
            if e.len() == 1 && e[0] == '~' {
                assert(sv =~= "~"@) by {
                    reveal_strlit("~");
                }
                owned(h)
            } else if e.len() >= 2 && e[0] == '~' && (e[1] == '/' || e[1] == '\\') {
                proof {
                    reveal_strlit("~");
                }
                let mut rest: Vec<char> = Vec::new();
                let mut j: usize = 2;
                while j < e.len()
                    invariant
                        2 <= j <= e.len(),
                        rest@ == e@.subrange(2, j as int),
                    decreases e.len() - j,
                {
                    rest.push(e[j]);
                    assert(e@.subrange(2, j + 1) =~= e@.subrange(2, j as int).push(e@[j as int]));
                    j += 1;
                }
                assert(e@.subrange(2, e.len() as int) =~= e@.skip(2));
                let rs = crate::text::string_from_chars(&rest);
                crate::storage::join_paths(h, rs.as_str())
            } else {
                proof {
                    reveal_strlit("~");
                    if sv == "~"@ {
                        assert(sv.len() == 1 && sv[0] == '~');
                    }
                }
                stripped
            }
        },
        None => stripped,
    }
}

/// Cleans a path typed by a user, expanding `~` to the user's home
/// directory when it is known.
pub fn sanitize_path(path: &str) -> (r: String)
    requires
        sanitizable_path(path@),
    ensures
        exists|home: Option<Seq<char>>| r@ == sanitize_path_spec(path@, home),
{
    let home = home_dir();
    match &home {
        Some(h) => {
            let r = sanitize_path_with_home(path, Some(h.as_str()));
            assert(r@ == sanitize_path_spec(path@, Some(h@)));
            r
        },
        None => {
            let r = sanitize_path_with_home(path, None);
            assert(r@ == sanitize_path_spec(path@, None));
            r
        },
    }
}

} // verus!
