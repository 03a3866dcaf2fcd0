//! Parental-control answers and the record of attempts.
use vstd::prelude::*;
use vstd::utf8::{encode_utf8, is_char_boundary};
use crate::text::{utf8_len, lowercase, owned, push_str, to_lowercase, trim, trim_spec};

verus! {

/// One attempt at the parental-control question.
#[derive(Clone, Debug)]
pub struct ParentalControlAttempt {
    pub id: i64,
    pub attempted_value: String,
    pub timestamp: String,
    pub success: bool,
}

/// The first three bytes of `v` may be cut off without splitting a
/// character (std panics when slicing `..3` otherwise).
pub open spec fn sanitizable(v: Seq<char>) -> bool {
    utf8_len(v) > 3 ==> is_char_boundary(encode_utf8(v), 3)
}

impl ParentalControlAttempt {
    pub fn new(id: i64, attempted_value: String, timestamp: String, success: bool) -> (r: Self)
        ensures
            r.id == id,
            r.attempted_value == attempted_value,
            r.timestamp == timestamp,
            r.success == success,
    {
        ParentalControlAttempt { id, attempted_value, timestamp, success }
    }

    pub fn is_successful(&self) -> (r: bool)
        ensures
            r == self.success,
    {
        self.success
    }

    /// The attempted value as it may be logged: its first three bytes
    /// followed by "..." when it is longer than three bytes, "***"
    /// otherwise.
    pub fn get_sanitized_attempted_value(&self) -> (r: String)
        requires
            sanitizable(self.attempted_value@),
        ensures
            utf8_len(self.attempted_value@) > 3 ==> exists|p: Seq<char>|
                encode_utf8(p) == encode_utf8(self.attempted_value@).subrange(0, 3) && r@
                    == p + "..."@,
            utf8_len(self.attempted_value@) <= 3 ==> r@ == "***"@,
    {
        let v = self.attempted_value.as_str();
        assert(v@ == self.attempted_value@);
        if v.len() > 3 {
            let (head, _tail) = v.split_at(3);
            let mut r = owned(head);
            push_str(&mut r, "...");
            assert(encode_utf8(head@) == encode_utf8(self.attempted_value@).subrange(0, 3));
            assert(r@ == head@ + "..."@);
            r
        } else {
            owned("***")
        }
    }
}

/// The answer to a parental-control question: whether access is granted
/// and the message shown.
#[derive(Clone, Debug)]
pub struct ValidateParentalControlResult {
    pub success: bool,
    pub message: String,
}

pub open spec fn answer_message(success: bool) -> Seq<char> {
    if success {
        "Access granted! Welcome to parental settings."@
    } else {
        "Incorrect answer. Access denied."@
    }
}

/// The question's expected answer, kept lowercased and trimmed.
#[derive(Clone, Debug)]
pub struct ParentalControlAnswer {
    correct_answer: String,
}

impl ParentalControlAnswer {
    pub closed spec fn correct_spec(&self) -> Seq<char> {
        self.correct_answer@
    }

    /// The default question's answer, "ice cold".
    pub fn new() -> (r: Self)
        ensures
            r.correct_spec() == "ice cold"@,
    {
        ParentalControlAnswer { correct_answer: owned("ice cold") }
    }

    /// A custom answer, stored lowercased and then trimmed.
    pub fn with_answer(answer: &str) -> (r: Self)
        ensures
            r.correct_spec() == trim_spec(lowercase(answer@)),
    {
        let lower = to_lowercase(answer);
        ParentalControlAnswer { correct_answer: trim(lower.as_str()) }
    }

    pub fn get_correct_answer(&self) -> (r: &str)
        ensures
            r@ == self.correct_spec(),
    {
        self.correct_answer.as_str()
    }

    /// Checks an answer: it is trimmed, lowercased and compared with the
    /// expected answer. Gives the verdict and the trimmed answer, which is
    /// what gets recorded.
    pub fn validate_answer(&self, answer: &str) -> (r: (ValidateParentalControlResult, String))
        ensures
            r.1@ == trim_spec(answer@),
            r.0.success == (lowercase(trim_spec(answer@)) == self.correct_spec()),
            r.0.message@ == answer_message(r.0.success),
    {
        let attempted = trim(answer);
        let lower = to_lowercase(attempted.as_str());
        let is_correct = lower.eq(&self.correct_answer);
        let result = if is_correct {
            ValidateParentalControlResult {
                success: true,
                message: owned("Access granted! Welcome to parental settings."),
            }
        } else {
            ValidateParentalControlResult {
                success: false,
                message: owned("Incorrect answer. Access denied."),
            }
        };
        (result, attempted)
    }
}

/// Whether an attempt succeeded, as a predicate over attempts.
pub open spec fn succeeded() -> spec_fn(ParentalControlAttempt) -> bool {
    |a: ParentalControlAttempt| a.success
}

/// Counts of attempts: all, successful, failed.
pub fn attempt_counts(attempts: &Vec<ParentalControlAttempt>) -> (r: (usize, usize, usize))
    ensures
        r.0 == attempts.len(),
        r.1 == attempts@.filter(succeeded()).len(),
        r.2 == r.0 - r.1,
{
    let mut ok: usize = 0;
    let mut i: usize = 0;
    while i < attempts.len()
        invariant
            i <= attempts.len(),
            ok == attempts@.take(i as int).filter(succeeded()).len(),
            ok <= i,
        decreases attempts.len() - i,
    {
        proof {
            let s = attempts@.take(i as int);
            assert(attempts@.take(i + 1) =~= s.push(attempts@[i as int]));
            s.lemma_filter_len_push(succeeded(), attempts@[i as int]);
        }
        if attempts[i].success {
            ok += 1;
        }
        i += 1;
    }
    assert(attempts@.take(i as int) =~= attempts@);
    (attempts.len(), ok, attempts.len() - ok)
}

} // verus!

verus! {

/// The largest of the ids, or 0 when there are none or all are below 0.
pub open spec fn max_id_from(ids: Seq<i64>) -> int
    decreases ids.len(),
{
    if ids.len() == 0 {
        0
    } else {
        let rest = max_id_from(ids.drop_last());
        if ids.last() > rest {
            ids.last() as int
        } else {
            rest
        }
    }
}

/// The id given to the next recorded attempt: one more than the largest
/// id recorded (1 for the first). It is above every recorded id.
pub fn next_attempt_id(ids: &Vec<i64>) -> (r: i64)
    requires
        forall|i: int| 0 <= i < ids.len() ==> ids@[i] < i64::MAX,
    ensures
        r == max_id_from(ids@) + 1,
        forall|i: int| 0 <= i < ids.len() ==> ids@[i] < r,
{
    let mut best: i64 = 0;
    let mut i: usize = 0;
    while i < ids.len()
        invariant
            i <= ids.len(),
            forall|k: int| 0 <= k < ids.len() ==> ids@[k] < i64::MAX,
            best == max_id_from(ids@.take(i as int)),
            0 <= best < i64::MAX,
            forall|k: int| 0 <= k < i ==> ids@[k] <= best,
        decreases ids.len() - i,
    {
        assert(ids@.take(i + 1).drop_last() =~= ids@.take(i as int));
        if ids[i] > best {
            best = ids[i];
        }
        i += 1;
    }
    assert(ids@.take(i as int) =~= ids@);
    best + 1
}

} // verus!
