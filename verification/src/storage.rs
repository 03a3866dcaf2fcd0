//! Where data is kept on disk: the data directory, each child's
//! directory and files, the git repositories that version them, and the
//! text handling of relocating a child's directory.
use vstd::prelude::*;
use crate::text::{chars_of, owned, push_str, trim, trim_spec};

verus! {

/// How the library joins paths: Unix path syntax, as std's
/// `PathBuf::push` does it on Unix. An absolute `rel` (one starting with
/// `/`) replaces `base`; otherwise `rel` is appended after a `/` unless
/// `base` is empty or already ends with one.
pub open spec fn join_spec(base: Seq<char>, rel: Seq<char>) -> Seq<char> {
    if rel.len() > 0 && rel[0] == '/' {
        rel
    } else if base.len() == 0 || base.last() == '/' {
        base + rel
    } else {
        base + "/"@ + rel
    }
}

/// Joins two paths as text (see `join_spec`).
pub fn join_paths(base: &str, rel: &str) -> (r: String)
    ensures
        r@ == join_spec(base@, rel@),
{
    let rv = chars_of(rel);
    let bv = chars_of(base);
    proof {
        reveal_strlit("/");
    }
    if rv.len() > 0 && rv[0] == '/' {
        return owned(rel);
    }
    let mut out = owned(base);
    if bv.len() > 0 && bv[bv.len() - 1] != '/' {
        push_str(&mut out, "/");
    }
    push_str(&mut out, rel);
    out
}

/// Where the app's data lives: one directory holding a directory per
/// child.
#[derive(Clone, Debug)]
pub struct CsvConnection {
    base_directory: String,
}

impl CsvConnection {
    pub closed spec fn base_spec(&self) -> Seq<char> {
        self.base_directory@
    }

    /// A connection rooted at `base_directory` (creating the directory is
    /// left to the caller).
    pub fn new(base_directory: &str) -> (r: Self)
        ensures
            r.base_spec() == base_directory@,
    {
        CsvConnection { base_directory: owned(base_directory) }
    }

    pub fn base_directory(&self) -> (r: String)
        ensures
            r@ == self.base_spec(),
    {
        owned(self.base_directory.as_str())
    }

    pub fn get_current_data_directory(&self) -> (r: String)
        ensures
            r@ == self.base_spec(),
    {
        owned(self.base_directory.as_str())
    }

    /// A child's directory when it has not been moved: the base directory
    /// joined with the child's directory name.
    pub fn default_child_directory(&self, child_name: &str) -> (r: String)
        ensures
            r@ == join_spec(self.base_spec(), child_name@),
    {
        join_paths(self.base_directory.as_str(), child_name)
    }

    /// The file that records where a child's data was moved to.
    pub fn redirect_file_path(&self, child_name: &str) -> (r: String)
        ensures
            r@ == join_spec(join_spec(self.base_spec(), child_name@), ".allowance_redirect"@),
    {
        let dir = self.default_child_directory(child_name);
        join_paths(dir.as_str(), ".allowance_redirect")
    }

    /// A child's directory: the target named in its redirect file when
    /// there is one (its text trimmed) and that target exists, else the
    /// default directory. The caller reads the redirect file and tells
    /// whether its trimmed target exists (`target_exists`, unused when
    /// there is no redirect).
    pub fn get_child_directory(&self, child_name: &str, redirect_contents: Option<&str>, target_exists: bool)
        -> (r: String)
        ensures
            redirect_contents is None ==> r@ == join_spec(self.base_spec(), child_name@),
            redirect_contents matches Some(c) ==> r@ == (if target_exists {
                trim_spec(c@)
            } else {
                join_spec(self.base_spec(), child_name@)
            }),
    {
        let default = self.default_child_directory(child_name);
        match redirect_contents {
            Some(c) => choose_child_directory(default.as_str(), c, target_exists),
            None => default,
        }
    }

    /// The transactions file in a child's directory.
    pub fn get_transactions_file_path(&self, child_directory: &str) -> (r: String)
        ensures
            r@ == join_spec(child_directory@, "transactions.csv"@),
    {
        join_paths(child_directory, "transactions.csv")
    }

    /// The files a child's data directory must hold, at `path`:
    /// `child.yaml`, `transactions.csv` and `goals.csv`, in the order
    /// they are checked.
    pub fn child_data_files(&self, path: &str) -> (r: Vec<String>)
        ensures
            r.len() == 3,
            r@[0]@ == join_spec(path@, "child.yaml"@),
            r@[1]@ == join_spec(path@, "transactions.csv"@),
            r@[2]@ == join_spec(path@, "goals.csv"@),
    {
        let mut v: Vec<String> = Vec::new();
        v.push(join_paths(path, "child.yaml"));
        v.push(join_paths(path, "transactions.csv"));
        v.push(join_paths(path, "goals.csv"));
        v
    }

    /// Checks that a copied child directory holds its three files, given
    /// whether each of `child_data_files(path)` exists: reports the first
    /// that is missing (see `child_data_report_spec`).
    pub fn verify_child_data_exists(
        &self,
        path: &str,
        child_yaml: bool,
        transactions_csv: bool,
        goals_csv: bool,
    ) -> (r: Result<(), String>)
        ensures
            outcome_view(r) == child_data_report_spec(path@, child_yaml, transactions_csv, goals_csv),
    {
        child_data_report(path, child_yaml, transactions_csv, goals_csv)
    }
}

/// The directory a redirect leads to: the redirect's trimmed text when
/// that target exists, else the default directory.
pub fn choose_child_directory(default: &str, redirect: &str, target_exists: bool) -> (r: String)
    ensures
        target_exists ==> r@ == trim_spec(redirect@),
        !target_exists ==> r@ == default@,
{
    if target_exists {
        trim(redirect)
    } else {
        owned(default)
    }
}

/// A check's outcome with its message as text.
pub open spec fn outcome_view(r: Result<(), String>) -> Result<(), Seq<char>> {
    match r {
        Ok(()) => Ok(()),
        Err(m) => Err(m@),
    }
}

/// What the check of a copied child directory reports, given which of
/// `child.yaml`, `transactions.csv` and `goals.csv` are present in `path`:
/// the first missing one, with its full path.
pub open spec fn child_data_report_spec(
    path: Seq<char>,
    child_yaml: bool,
    transactions_csv: bool,
    goals_csv: bool,
) -> Result<(), Seq<char>> {
    if !child_yaml {
        Err(missing_file_message("child.yaml"@, join_spec(path, "child.yaml"@)))
    } else if !transactions_csv {
        Err(missing_file_message("transactions.csv"@, join_spec(path, "transactions.csv"@)))
    } else if !goals_csv {
        Err(missing_file_message("goals.csv"@, join_spec(path, "goals.csv"@)))
    } else {
        Ok(())
    }
}

/// The report on a copied child directory, given which of its three files
/// were found (see `child_data_report_spec`).
fn child_data_report(path: &str, child_yaml: bool, transactions_csv: bool, goals_csv: bool) -> (r:
    Result<(), String>)
    ensures
        outcome_view(r) == child_data_report_spec(path@, child_yaml, transactions_csv, goals_csv),
{
    let f: &str = if !child_yaml {
        "child.yaml"
    } else if !transactions_csv {
        "transactions.csv"
    } else if !goals_csv {
        "goals.csv"
    } else {
        return Ok(());
    };
    let p = join_paths(path, f);
    let mut m = owned("Expected file '");
    push_str(&mut m, f);
    push_str(&mut m, "' does not exist at path: ");
    push_str(&mut m, p.as_str());
    Err(m)
}

pub open spec fn missing_file_message(file: Seq<char>, at: Seq<char>) -> Seq<char> {
    "Expected file '"@ + file + "' does not exist at path: "@ + at
}

/// `s` with every non-overlapping occurrence of `pat` (taken from the
/// left) replaced by `rep`, as std's `str::replace` does.
pub open spec fn replace_spec(s: Seq<char>, pat: Seq<char>, rep: Seq<char>) -> Seq<char>
    recommends
        pat.len() > 0,
    decreases s.len(),
{
    if pat.len() == 0 || s.len() < pat.len() {
        s
    } else if s.take(pat.len() as int) == pat {
        rep + replace_spec(s.skip(pat.len() as int), pat, rep)
    } else {
        seq![s[0]] + replace_spec(s.skip(1), pat, rep)
    }
}

/// std's `str::replace` with a non-empty pattern.
pub fn replace_text(s: &str, pat: &str, rep: &str) -> (r: String)
    requires
        pat@.len() > 0,
    ensures
        r@ == replace_spec(s@, pat@, rep@),
{
    let sv = crate::text::chars_of(s);
    let pv = crate::text::chars_of(pat);
    let mut out = String::new();
    let mut i: usize = 0;
    assert(sv@.skip(0) =~= sv@);
    while i < sv.len()
        invariant
            i <= sv.len(),
            sv@ == s@,
            pv@ == pat@,
            pv.len() > 0,
            replace_spec(s@, pat@, rep@) == out@ + replace_spec(sv@.skip(i as int), pat@, rep@),
        decreases sv.len() - i,
    {
        let ghost rest = sv@.skip(i as int);
        let mut matched = pv.len() <= sv.len() - i;
        let mut j: usize = 0;
        while matched && j < pv.len()
            invariant
                j <= pv.len(),
                matched ==> i + pv.len() <= sv.len(),
                matched ==> forall|k: int| 0 <= k < j ==> sv@[i + k] == pv@[k],
                !matched ==> !(rest.len() >= pv.len() && rest.take(pv.len() as int) == pv@),
                    rest == sv@.skip(i as int),
            decreases pv.len() - j + (if matched {
                1int
            } else {
                0int
            }),
        {
            if sv[i + j] != pv[j] {
                assert(rest[j as int] == sv@[i + j]);
                assert(rest.take(pv.len() as int)[j as int] != pv@[j as int]);
                matched = false;
            } else {
                j += 1;
            }
        }
        if matched {
            assert(rest.take(pv.len() as int) =~= pv@);
            assert(sv@.skip(i + pv.len()) =~= rest.skip(pv.len() as int));
            push_str(&mut out, rep);
            i = i + pv.len();
        } else {
            assert(sv@.skip(i + 1) =~= rest.skip(1));
            assert(rest.len() > 0 && rest[0] == sv@[i as int]);
            crate::text::push_char(&mut out, sv[i]);
            assert(out@ =~= out@.drop_last() + seq![sv@[i as int]]);
            i = i + 1;
        }
    }
    assert(sv@.skip(i as int) =~= Seq::<char>::empty());
    out
}

/// The shell escapes undone in a path typed by a user: `\ `, `\~`, `\'`,
/// `\"` and finally `\\`, each in turn over the whole text.
pub open spec fn unescape_path_spec(s: Seq<char>) -> Seq<char> {
    replace_spec(
        replace_spec(
            replace_spec(replace_spec(replace_spec(s, "\\ "@, " "@), "\\~"@, "~"@), "\\'"@, "'"@),
            "\\\""@,
            "\""@,
        ),
        "\\\\"@,
        "\\"@,
    )
}

/// Undoes the shell escapes of a path typed by a user.
pub fn unescape_shell_path(path: &str) -> (r: String)
    ensures
        r@ == unescape_path_spec(path@),
{
    proof {
        reveal_strlit("\\ ");
        reveal_strlit("\\~");
        reveal_strlit("\\'");
        reveal_strlit("\\\"");
        reveal_strlit("\\\\");
    }
    let a = replace_text(path, "\\ ", " ");
    let b = replace_text(a.as_str(), "\\~", "~");
    let c = replace_text(b.as_str(), "\\'", "'");
    let d = replace_text(c.as_str(), "\\\"", "\"");
    replace_text(d.as_str(), "\\\\", "\\")
}

/// Whether two text paths name the same path, component by component, as
/// std's `Path` equality decides.
pub uninterp spec fn same_path(a: Seq<char>, b: Seq<char>) -> bool;

/// std's `==` on `Path`s built from the two texts. Claimed: the result is
/// `same_path(a, b)`, which holds whenever the texts are equal.
#[verifier::external_body]
fn paths_equal(a: &str, b: &str) -> (r: bool)
    ensures
        r == same_path(a@, b@),
        a@ == b@ ==> r,
{
    std::path::Path::new(a) == std::path::Path::new(b)
}

/// What is decided before a child's directory is moved.
#[derive(Clone, Debug)]
pub enum RelocationPlan {
    /// Nothing to do; the message says so.
    AlreadyThere(String),
    /// The move is refused with this message.
    Refused(String),
    /// The data is to be copied to the new place.
    Proceed,
}

pub open spec fn already_there_message(child_name: Seq<char>) -> Seq<char> {
    "Child '"@ + child_name + "' data directory is already at the specified location"@
}

pub open spec fn missing_source_message(child_name: Seq<char>, dir: Seq<char>) -> Seq<char> {
    "Child '"@ + child_name + "' directory does not exist: "@ + dir
}

pub open spec fn target_not_empty_message(target: Seq<char>) -> Seq<char> {
    "Target directory is not empty: "@ + target
}

/// Decides whether a child's directory, now at `current_dir`, can move to
/// `new_path`: not when it is already there (the same text, or the same
/// path as std compares paths), not when it does not exist,
/// not when the target exists with entries in it (`target_entries` is how
/// many the target holds when it exists).
pub fn relocation_plan(
    child_name: &str,
    new_path: &str,
    current_dir: &str,
    source_exists: bool,
    target_entries: Option<usize>,
) -> (r: RelocationPlan)
    ensures
        new_path@ == current_dir@ || same_path(new_path@, current_dir@) ==> (r matches RelocationPlan::AlreadyThere(m) && m@
            == already_there_message(child_name@)),
        !(new_path@ == current_dir@ || same_path(new_path@, current_dir@)) && !source_exists ==> (r matches RelocationPlan::Refused(
            m,
        ) && m@ == missing_source_message(child_name@, current_dir@)),
        !(new_path@ == current_dir@ || same_path(new_path@, current_dir@)) && source_exists && (target_entries matches Some(n)
            && n > 0) ==> (r matches RelocationPlan::Refused(m) && m@ == target_not_empty_message(
            new_path@,
        )),
        !(new_path@ == current_dir@ || same_path(new_path@, current_dir@)) && source_exists && !(target_entries matches Some(n)
            && n > 0) ==> r is Proceed,
{
    let same_text = crate::text::equals_str(&owned(new_path), current_dir);
    if same_text || paths_equal(new_path, current_dir) {
        let mut m = owned("Child '");
        push_str(&mut m, child_name);
        push_str(&mut m, "' data directory is already at the specified location");
        return RelocationPlan::AlreadyThere(m);
    }
    if !source_exists {
        let mut m = owned("Child '");
        push_str(&mut m, child_name);
        push_str(&mut m, "' directory does not exist: ");
        push_str(&mut m, current_dir);
        return RelocationPlan::Refused(m);
    }
    match target_entries {
        Some(n) => {
            if n > 0 {
                let mut m = owned("Target directory is not empty: ");
                push_str(&mut m, new_path);
                return RelocationPlan::Refused(m);
            }
        },
        None => {},
    }
    RelocationPlan::Proceed
}

/// The two key files of a child's directory at `dir`, probed after a
/// copy: `child.yaml` and `transactions.csv`.
pub fn key_file_paths(dir: &str) -> (r: (String, String))
    ensures
        r.0@ == join_spec(dir@, "child.yaml"@),
        r.1@ == join_spec(dir@, "transactions.csv"@),
{
    (join_paths(dir, "child.yaml"), join_paths(dir, "transactions.csv"))
}

/// What the check after a copy reports, given whether `child.yaml` and
/// `transactions.csv` are in the source and in the destination: the first
/// that is in the source but not in the destination.
pub open spec fn copied_files_report_spec(
    during_revert: bool,
    src_child: bool,
    dst_child: bool,
    src_tx: bool,
    dst_tx: bool,
) -> Result<(), Seq<char>> {
    if src_child && !dst_child {
        Err(not_copied_message("child.yaml"@, during_revert))
    } else if src_tx && !dst_tx {
        Err(not_copied_message("transactions.csv"@, during_revert))
    } else {
        Ok(())
    }
}

/// The report after a copy, given where the two key files were found
/// (see `copied_files_report_spec`).
pub fn copied_files_report(
    during_revert: bool,
    src_child: bool,
    dst_child: bool,
    src_tx: bool,
    dst_tx: bool,
) -> (r: Result<(), String>)
    ensures
        outcome_view(r) == copied_files_report_spec(during_revert, src_child, dst_child, src_tx, dst_tx),
{
    let f: &str = if src_child && !dst_child {
        "child.yaml"
    } else if src_tx && !dst_tx {
        "transactions.csv"
    } else {
        return Ok(());
    };
    let mut m = owned("File '");
    push_str(&mut m, f);
    if during_revert {
        push_str(&mut m, "' was not copied successfully during revert");
    } else {
        push_str(&mut m, "' was not copied successfully - missing at destination");
    }
    Err(m)
}

/// The message of the git commit that records a child's redirect file:
/// written when the data is moved, removed when it is moved back.
pub fn redirect_commit_message(child_name: &str, reverted: bool) -> (r: String)
    ensures
        r@ == (if reverted {
            "Data directory reverted to default for "@
        } else {
            "Data directory relocated for "@
        }) + child_name@,
{
    let mut m = if reverted {
        owned("Data directory reverted to default for ")
    } else {
        owned("Data directory relocated for ")
    };
    push_str(&mut m, child_name);
    m
}

/// The message returned when moving a child's data directory (or moving
/// it back, when `reverted`) failed with `error`.
pub fn data_directory_failure_message(child_name: &str, error: &str, reverted: bool) -> (r: String)
    ensures
        r@ == (if reverted {
            "Failed to revert data directory for child '"@
        } else {
            "Failed to relocate data directory for child '"@
        }) + child_name@ + "': "@ + error@,
{
    let mut m = if reverted {
        owned("Failed to revert data directory for child '")
    } else {
        owned("Failed to relocate data directory for child '")
    };
    push_str(&mut m, child_name);
    push_str(&mut m, "': ");
    push_str(&mut m, error);
    m
}

pub open spec fn not_copied_message(file: Seq<char>, during_revert: bool) -> Seq<char> {
    if during_revert {
        "File '"@ + file + "' was not copied successfully during revert"@
    } else {
        "File '"@ + file + "' was not copied successfully - missing at destination"@
    }
}

/// Which entries of a child's default directory survive: `.git` always,
/// and the redirect file too when the data is moved back.
pub fn keeps_entry(name: &str, during_revert: bool) -> (r: bool)
    ensures
        r == (name@ == ".git"@ || (during_revert && name@ == ".allowance_redirect"@)),
{
    let n = owned(name);
    crate::text::equals_str(&n, ".git") || (during_revert && crate::text::equals_str(
        &n,
        ".allowance_redirect",
    ))
}

/// The message reporting a finished move.
pub fn relocated_message(child_name: &str, new_path: &str) -> (r: String)
    ensures
        r@ == "Child '"@ + child_name@ + "' data directory successfully relocated to: "@ + new_path@,
{
    let mut m = owned("Child '");
    push_str(&mut m, child_name);
    push_str(&mut m, "' data directory successfully relocated to: ");
    push_str(&mut m, new_path);
    m
}

/// The message reporting a finished move back to the default place.
pub fn reverted_message(child_name: &str, default_dir: &str) -> (r: String)
    ensures
        r@ == "Child '"@ + child_name@ + "' data directory successfully reverted to default location: "@
            + default_dir@,
{
    let mut m = owned("Child '");
    push_str(&mut m, child_name);
    push_str(&mut m, "' data directory successfully reverted to default location: ");
    push_str(&mut m, default_dir);
    m
}

/// The message when a child's data was never moved.
pub fn not_relocated_message(child_name: &str) -> (r: String)
    ensures
        r@ == "Child '"@ + child_name@ + "' data directory is already at the default location"@,
{
    let mut m = owned("Child '");
    push_str(&mut m, child_name);
    push_str(&mut m, "' data directory is already at the default location");
    m
}

/// Manages the git repository kept in each child's directory.
#[derive(Clone, Debug)]
pub struct GitManager {
    author_name: String,
    author_email: String,
}

impl GitManager {
    pub closed spec fn author_name_spec(&self) -> Seq<char> {
        self.author_name@
    }

    pub closed spec fn author_email_spec(&self) -> Seq<char> {
        self.author_email@
    }

    /// A manager committing as "Allowance Tracker <allowance@tracker.local>".
    pub fn new() -> (r: Self)
        ensures
            r.author_name_spec() == "Allowance Tracker"@,
            r.author_email_spec() == "allowance@tracker.local"@,
    {
        GitManager {
            author_name: owned("Allowance Tracker"),
            author_email: owned("allowance@tracker.local"),
        }
    }

    pub fn with_author(author_name: String, author_email: String) -> (r: Self)
        ensures
            r.author_name_spec() == author_name@,
            r.author_email_spec() == author_email@,
    {
        GitManager { author_name, author_email }
    }

    pub fn author_name(&self) -> (r: &str)
        ensures
            r@ == self.author_name_spec(),
    {
        self.author_name.as_str()
    }

    pub fn author_email(&self) -> (r: &str)
        ensures
            r@ == self.author_email_spec(),
    {
        self.author_email.as_str()
    }

    /// The `.git` directory of a repository.
    pub fn get_git_dir(&self, repo_path: &str) -> (r: String)
        ensures
            r@ == join_spec(repo_path@, ".git"@),
    {
        join_paths(repo_path, ".git")
    }

    /// The message of the commit that records a change to a file.
    pub fn commit_message(&self, filename: &str, action_description: &str) -> (r: String)
        ensures
            r@ == "Update "@ + filename@ + ": "@ + action_description@,
    {
        let mut m = owned("Update ");
        push_str(&mut m, filename);
        push_str(&mut m, ": ");
        push_str(&mut m, action_description);
        m
    }
}

impl Default for GitManager {
    fn default() -> (r: Self)
        ensures
            r.author_name_spec() == "Allowance Tracker"@,
            r.author_email_spec() == "allowance@tracker.local"@,
    {
        GitManager::new()
    }
}

/// Parental-control attempts stored per child in CSV files.
#[derive(Clone, Debug)]
pub struct CsvParentalControlRepository {
    connection: CsvConnection,
}

impl CsvParentalControlRepository {
    pub closed spec fn connection_spec(&self) -> CsvConnection {
        self.connection
    }

    pub fn new(connection: CsvConnection) -> (r: Self)
        ensures
            r.connection_spec() == connection,
    {
        CsvParentalControlRepository { connection }
    }

    pub fn connection(&self) -> (r: &CsvConnection)
        ensures
            *r == self.connection_spec(),
    {
        &self.connection
    }

    /// The attempts file in a child's directory.
    pub fn get_parental_control_file_path(&self, child_directory: &str) -> (r: String)
        ensures
            r@ == join_spec(child_directory@, "parental_control_attempts.csv"@),
    {
        join_paths(child_directory, "parental_control_attempts.csv")
    }
}

/// Transactions stored per child in CSV files.
#[derive(Clone, Debug)]
pub struct CsvTransactionRepository {
    connection: CsvConnection,
}

impl CsvTransactionRepository {
    pub closed spec fn connection_spec(&self) -> CsvConnection {
        self.connection
    }

    pub fn new(connection: CsvConnection) -> (r: Self)
        ensures
            r.connection_spec() == connection,
    {
        CsvTransactionRepository { connection }
    }

    pub fn connection(&self) -> (r: &CsvConnection)
        ensures
            *r == self.connection_spec(),
    {
        &self.connection
    }
}

} // verus!
