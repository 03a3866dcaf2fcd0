//! Goal states, their stored text, the mapping between the stored and the
//! exchanged state, and the goal description rules.
use vstd::prelude::*;
use crate::dates::{add_days, date_le, date_lt, date_on_or_before, days_after, lemma_key_order, lemma_next_date_later, next_date, next_date_spec, valid_date, weekday_from_sunday, weekday_spec, Date};
use crate::text::{byte_len, decimal, equals_str, lowercase, owned, push_decimal, push_str, to_lowercase, trim, trim_spec};

verus! {

/// Lifecycle state of a stored goal.
#[derive(Clone, Copy, Debug, PartialEq, Eq, Structural)]
pub enum DomainGoalState {
    Active,
    Cancelled,
    Completed,
}

/// Lifecycle state of a goal as exchanged with the user interface.
#[derive(Clone, Copy, Debug, PartialEq, Eq, Structural)]
pub enum GoalState {
    Active,
    Cancelled,
    Completed,
}

pub open spec fn goal_state_text(s: DomainGoalState) -> Seq<char> {
    match s {
        DomainGoalState::Active => "active"@,
        DomainGoalState::Cancelled => "cancelled"@,
        DomainGoalState::Completed => "completed"@,
    }
}

/// The state named by a text, compared after lowercasing.
pub open spec fn goal_state_from_text(s: Seq<char>) -> Option<DomainGoalState> {
    if lowercase(s) == "active"@ {
        Some(DomainGoalState::Active)
    } else if lowercase(s) == "cancelled"@ {
        Some(DomainGoalState::Cancelled)
    } else if lowercase(s) == "completed"@ {
        Some(DomainGoalState::Completed)
    } else {
        None
    }
}

impl DomainGoalState {
    /// The text under which the state is stored.
    pub fn to_string(&self) -> (r: String)
        ensures
            r@ == goal_state_text(*self),
    {
        match self {
            DomainGoalState::Active => owned("active"),
            DomainGoalState::Cancelled => owned("cancelled"),
            DomainGoalState::Completed => owned("completed"),
        }
    }

    /// Reads a stored state, ignoring case; anything else is an error
    /// "Invalid goal state: <text>".
    pub fn from_string(s: &str) -> (r: Result<Self, String>)
        ensures
            match r {
                Ok(state) => goal_state_from_text(s@) == Some(state),
                Err(msg) => goal_state_from_text(s@) is None && msg@ == "Invalid goal state: "@
                    + s@,
            },
    {
        let lower = to_lowercase(s);
        if equals_str(&lower, "active") {
            Ok(DomainGoalState::Active)
        } else if equals_str(&lower, "cancelled") {
            Ok(DomainGoalState::Cancelled)
        } else if equals_str(&lower, "completed") {
            Ok(DomainGoalState::Completed)
        } else {
            let mut msg = owned("Invalid goal state: ");
            push_str(&mut msg, s);
            Err(msg)
        }
    }
}

/// Why a goal was refused.
#[derive(Clone, Copy, Debug, PartialEq, Eq, Structural)]
pub enum GoalValidationError {
    EmptyDescription,
    DescriptionTooLong,
    NonPositiveTargetAmount,
    TargetAmountNotGreaterThanBalance,
    ActiveGoalAlreadyExists,
}

pub open spec fn goal_error_text(e: GoalValidationError) -> Seq<char> {
    match e {
        GoalValidationError::EmptyDescription => "Description cannot be empty"@,
        GoalValidationError::DescriptionTooLong => "Description is too long"@,
        GoalValidationError::NonPositiveTargetAmount => "Target amount must be positive"@,
        GoalValidationError::TargetAmountNotGreaterThanBalance =>
            "Target amount must be greater than current balance"@,
        GoalValidationError::ActiveGoalAlreadyExists => "Child already has an active goal"@,
    }
}

impl GoalValidationError {
    /// The error's message.
    pub fn message(&self) -> (r: String)
        ensures
            r@ == goal_error_text(*self),
    {
        match self {
            GoalValidationError::EmptyDescription => owned("Description cannot be empty"),
            GoalValidationError::DescriptionTooLong => owned("Description is too long"),
            GoalValidationError::NonPositiveTargetAmount => owned("Target amount must be positive"),
            GoalValidationError::TargetAmountNotGreaterThanBalance => owned(
                "Target amount must be greater than current balance",
            ),
            GoalValidationError::ActiveGoalAlreadyExists => owned(
                "Child already has an active goal",
            ),
        }
    }
}

/// The description rule for goals: blank after trimming is refused, and so
/// is more than 256 bytes.
pub open spec fn goal_service_message_spec(e: GoalValidationError) -> Option<Seq<char>> {
    match e {
        GoalValidationError::EmptyDescription => Some("Goal description cannot be empty"@),
        GoalValidationError::DescriptionTooLong => Some(
            "Goal description cannot exceed 256 characters"@,
        ),
        GoalValidationError::NonPositiveTargetAmount => Some("Goal target amount must be positive"@),
        GoalValidationError::ActiveGoalAlreadyExists => Some(
            "Child already has an active goal. Cancel or complete the existing goal first."@,
        ),
        GoalValidationError::TargetAmountNotGreaterThanBalance => None,
    }
}

impl GoalValidationError {
    /// The message the goal service answers a refused request with; the
    /// balance refusal has none here, as its message shows the amounts.
    pub fn service_message(&self) -> (r: Option<&'static str>)
        ensures
            match r {
                Some(m) => goal_service_message_spec(*self) == Some(m@),
                None => goal_service_message_spec(*self) is None,
            },
    {
        match self {
            GoalValidationError::EmptyDescription => Some("Goal description cannot be empty"),
            GoalValidationError::DescriptionTooLong => Some(
                "Goal description cannot exceed 256 characters",
            ),
            GoalValidationError::NonPositiveTargetAmount => Some(
                "Goal target amount must be positive",
            ),
            GoalValidationError::ActiveGoalAlreadyExists => Some(
                "Child already has an active goal. Cancel or complete the existing goal first.",
            ),
            GoalValidationError::TargetAmountNotGreaterThanBalance => None,
        }
    }
}

pub open spec fn goal_description_error_spec(description: &str) -> Option<GoalValidationError> {
    if trim_spec(description@).len() == 0 {
        Some(GoalValidationError::EmptyDescription)
    } else if byte_len(description) > 256 {
        Some(GoalValidationError::DescriptionTooLong)
    } else {
        None
    }
}

/// Checks a goal description; on success gives the trimmed description
/// that is stored.
pub fn check_goal_description(description: &str) -> (r: Result<String, GoalValidationError>)
    ensures
        match r {
            Ok(t) => goal_description_error_spec(description) is None && t@ == trim_spec(
                description@,
            ),
            Err(e) => goal_description_error_spec(description) == Some(e),
        },
{
    let t = trim(description);
    if t.as_str().is_empty() {
        Err(GoalValidationError::EmptyDescription)
    } else if description.len() > 256 {
        Err(GoalValidationError::DescriptionTooLong)
    } else {
        Ok(t)
    }
}

/// Identifier of a goal created for `child_id` at `now_millis`:
/// `goal::<child_id>_<now_millis>`.
pub fn goal_id(child_id: &str, now_millis: u64) -> (r: String)
    ensures
        r@ == "goal::"@ + child_id@ + "_"@ + decimal(now_millis as nat),
{
    let mut r = owned("goal::");
    push_str(&mut r, child_id);
    push_str(&mut r, "_");
    push_decimal(&mut r, now_millis);
    r
}

/// Conversion of goal states between the exchanged and the stored form.
pub struct GoalMapper;

pub open spec fn state_to_domain_spec(s: GoalState) -> DomainGoalState {
    match s {
        GoalState::Active => DomainGoalState::Active,
        GoalState::Cancelled => DomainGoalState::Cancelled,
        GoalState::Completed => DomainGoalState::Completed,
    }
}

pub open spec fn state_to_dto_spec(s: DomainGoalState) -> GoalState {
    match s {
        DomainGoalState::Active => GoalState::Active,
        DomainGoalState::Cancelled => GoalState::Cancelled,
        DomainGoalState::Completed => GoalState::Completed,
    }
}

impl GoalMapper {
    pub fn goal_state_to_domain(dto_state: GoalState) -> (r: DomainGoalState)
        ensures
            r == state_to_domain_spec(dto_state),
    {
        match dto_state {
            GoalState::Active => DomainGoalState::Active,
            GoalState::Cancelled => DomainGoalState::Cancelled,
            GoalState::Completed => DomainGoalState::Completed,
        }
    }

    pub fn goal_state_to_dto(domain_state: DomainGoalState) -> (r: GoalState)
        ensures
            r == state_to_dto_spec(domain_state),
    {
        match domain_state {
            DomainGoalState::Active => GoalState::Active,
            DomainGoalState::Cancelled => GoalState::Cancelled,
            DomainGoalState::Completed => GoalState::Completed,
        }
    }
}

/// Mapping a state to the exchanged form and back gives the state again.
pub proof fn lemma_goal_state_round_trip(s: DomainGoalState)
    ensures
        state_to_domain_spec(state_to_dto_spec(s)) == s,
{
}

/// Mapping an exchanged state to the stored form and back gives it again.
pub proof fn lemma_goal_dto_state_round_trip(s: GoalState)
    ensures
        state_to_dto_spec(state_to_domain_spec(s)) == s,
{
}

/// Distinct states are stored under distinct texts.
pub proof fn lemma_goal_state_text_injective(a: DomainGoalState, b: DomainGoalState)
    requires
        goal_state_text(a) == goal_state_text(b),
    ensures
        a == b,
{
    reveal_strlit("active");
    reveal_strlit("cancelled");
    reveal_strlit("completed");
    assert("active"@.len() == 6);
    assert("cancelled"@.len() == 9);
    assert("completed"@.len() == 9);
    assert("cancelled"@[2] == 'n');
    assert("completed"@[2] == 'm');
    if a != b {
        if goal_state_text(a).len() == goal_state_text(b).len() {
            assert(goal_state_text(a)[2] != goal_state_text(b)[2]);
        }
    }
}

/// A stored state text reads back as the same state.
pub proof fn lemma_goal_state_text_reads_back(s: DomainGoalState)
    requires
        lowercase(goal_state_text(s)) == goal_state_text(s),
    ensures
        goal_state_from_text(goal_state_text(s)) == Some(s),
{
    reveal_strlit("active");
    reveal_strlit("cancelled");
    reveal_strlit("completed");
    assert("active"@.len() == 6);
    assert("cancelled"@.len() == 9);
    assert("completed"@.len() == 9);
    assert("cancelled"@[2] == 'n');
    assert("completed"@[2] == 'm');
}

/// Where a child's current goal is in its goal records, oldest first:
/// the last record whose state reads as active; `None` when none does.
pub fn current_goal_position(states: &Vec<String>) -> (r: Option<usize>)
    ensures
        match r {
            Some(i) => i < states.len() && goal_state_from_text(states@[i as int]@) == Some(
                DomainGoalState::Active,
            ) && forall|j: int|
                i < j < states.len() ==> goal_state_from_text(#[trigger] states@[j]@) != Some(
                    DomainGoalState::Active,
                ),
            None => forall|j: int|
                0 <= j < states.len() ==> goal_state_from_text(#[trigger] states@[j]@) != Some(
                    DomainGoalState::Active,
                ),
        },
{
    let mut i: usize = states.len();
    while i > 0
        invariant
            i <= states.len(),
            forall|j: int|
                i <= j < states.len() ==> goal_state_from_text(#[trigger] states@[j]@) != Some(
                    DomainGoalState::Active,
                ),
        decreases i,
    {
        i -= 1;
        match DomainGoalState::from_string(states[i].as_str()) {
            Ok(DomainGoalState::Active) => return Some(i),
            _ => {},
        }
    }
    None
}

/// The order in which a goal history is listed, given `count` records
/// oldest first: newest first, at most `limit` of them when a limit is
/// given.
pub fn goal_history_order(count: usize, limit: Option<u32>) -> (r: Vec<usize>)
    ensures
        r.len() == match limit {
            Some(l) => if (l as int) < count { l as int } else { count as int },
            None => count as int,
        },
        forall|k: int| 0 <= k < r.len() ==> #[trigger] r@[k] == count - 1 - k,
{
    let keep: usize = match limit {
        Some(l) => if (l as usize) < count { l as usize } else { count },
        None => count,
    };
    let mut r: Vec<usize> = Vec::new();
    let mut k: usize = 0;
    while k < keep
        invariant
            k <= keep <= count,
            r.len() == k,
            forall|m: int| 0 <= m < k ==> #[trigger] r@[m] == count - 1 - m,
        decreases keep - k,
    {
        r.push(count - 1 - k);
        k += 1;
    }
    r
}

} // verus!

verus! {

/// The date `i` days after `today` (meaningful while it is representable).
pub open spec fn day_after(today: Date, i: nat) -> Date {
    days_after(today, i)->0
}

/// How many of the `j` days after `today` fall on the allowance weekday.
pub open spec fn allowance_days_within(today: Date, day_of_week: u8, j: nat) -> nat
    decreases j,
{
    if j == 0 {
        0
    } else {
        allowance_days_within(today, day_of_week, (j - 1) as nat) + if weekday_spec(
            day_after(today, j),
        ) == day_of_week {
            1nat
        } else {
            0nat
        }
    }
}

/// Day `j` after `today` is an allowance day on which the allowances
/// received since today reach `needed`.
pub open spec fn goal_reached_on(today: Date, day_of_week: u8, needed: u32, j: nat) -> bool {
    &&& 1 <= j
    &&& weekday_spec(day_after(today, j)) == day_of_week
    &&& allowance_days_within(today, day_of_week, j) >= needed
}

/// The first day, counted from `today`, within the coming 364 days on
/// which the goal is reached; 365 when there is none.
pub open spec fn completion_offset_from(today: Date, day_of_week: u8, needed: u32, j: nat) -> nat
    decreases 365 - j,
{
    if j >= 365 {
        365
    } else if goal_reached_on(today, day_of_week, needed, j) {
        j
    } else {
        completion_offset_from(today, day_of_week, needed, j + 1)
    }
}

pub open spec fn completion_offset(today: Date, day_of_week: u8, needed: u32) -> nat {
    completion_offset_from(today, day_of_week, needed, 1)
}

/// When a goal is projected to be reached from weekly allowances alone.
#[derive(Clone, Copy, Debug, PartialEq, Eq, Structural)]
pub struct GoalProjection {
    pub completion_date: Date,
    pub exceeds_time_limit: bool,
}

/// Days a fixed number of days apart are in order, and every day up to a
/// representable one is representable.
pub proof fn lemma_days_after_order(d: Date, i: nat, j: nat)
    requires
        valid_date(d),
        i <= j,
        days_after(d, j) is Some,
    ensures
        days_after(d, i) is Some,
        valid_date(days_after(d, i)->0),
        i < j ==> date_lt(days_after(d, i)->0, days_after(d, j)->0),
        i == j ==> days_after(d, i) == days_after(d, j),
    decreases j,
{
    if j == 0 {
    } else {
        let prev = (j - 1) as nat;
        assert(days_after(d, prev) is Some);
        lemma_days_after_order(d, prev, prev);
        let p = days_after(d, prev)->0;
        lemma_next_date_later(p);
        if i < j {
            lemma_days_after_order(d, i, prev);
            if i < prev {
                let a = days_after(d, i)->0;
                lemma_key_order(a, p);
                lemma_key_order(p, days_after(d, j)->0);
                lemma_key_order(a, days_after(d, j)->0);
            }
        }
    }
}

proof fn lemma_completion_offset_from(today: Date, day_of_week: u8, needed: u32, j: nat)
    requires
        1 <= j <= 365,
        forall|k: nat| 1 <= k < j ==> !goal_reached_on(today, day_of_week, needed, k),
    ensures
        ({
            let c = completion_offset_from(today, day_of_week, needed, j);
            &&& j <= c <= 365
            &&& c < 365 ==> goal_reached_on(today, day_of_week, needed, c)
            &&& forall|k: nat| 1 <= k < c ==> !goal_reached_on(today, day_of_week, needed, k)
        }),
    decreases 365 - j,
{
    if j < 365 && !goal_reached_on(today, day_of_week, needed, j) {
        lemma_completion_offset_from(today, day_of_week, needed, j + 1);
    }
}

/// The goal is reached on the completion day, on no earlier day, and
/// within a year.
pub proof fn lemma_completion_offset(today: Date, day_of_week: u8, needed: u32)
    ensures
        ({
            let c = completion_offset(today, day_of_week, needed);
            &&& 1 <= c <= 365
            &&& c < 365 ==> goal_reached_on(today, day_of_week, needed, c)
            &&& forall|k: nat| 1 <= k < c ==> !goal_reached_on(today, day_of_week, needed, k)
        }),
{
    lemma_completion_offset_from(today, day_of_week, needed, 1);
}

/// What one step of the projection relies on: day `i` exists, lies after
/// today exactly when `i >= 1`, and (below a year) is followed by day
/// `i + 1`, which is no later than the day a year ahead.
proof fn lemma_projection_step(today: Date, i: nat)
    requires
        valid_date(today),
        days_after(today, 365) is Some,
        i <= 365,
    ensures
        valid_date(day_after(today, i)),
        i == 0 ==> day_after(today, i) == today,
        i >= 1 ==> date_lt(today, day_after(today, i)),
        i < 365 ==> next_date_spec(day_after(today, i)) == Some(day_after(today, i + 1)),
        i < 365 ==> date_le(day_after(today, i + 1), day_after(today, 365)),
        i < 365 ==> valid_date(day_after(today, i + 1)),
{
    lemma_days_after_order(today, i, 365);
    lemma_days_after_order(today, 0, i);
    if i < 365 {
        lemma_days_after_order(today, i + 1, 365);
    }
}

/// Projects the day a goal is reached when `allowances_needed` more
/// weekly allowances are needed: counting the allowance days after
/// `today`, the first one on which the count reaches the need (the first
/// allowance day at the least), looking at most 364 days ahead; failing
/// that, the day a year from today. The projection never passes that
/// day, so it never exceeds the one-year limit.
#[verifier::rlimit(40)]
pub fn project_goal_completion(today: Date, day_of_week: u8, allowances_needed: u32) -> (r:
    GoalProjection)
    requires
        valid_date(today),
        days_after(today, 365) is Some,
    ensures
        r.completion_date == day_after(today, completion_offset(today, day_of_week, allowances_needed)),
        !r.exceeds_time_limit,
{
    let limit = match add_days(today, 365) {
        Some(l) => l,
        None => today,
    };
    proof {
        lemma_completion_offset(today, day_of_week, allowances_needed);
    }
    let ghost c = completion_offset(today, day_of_week, allowances_needed);
    let mut projected = today;
    let mut counted: u32 = 0;
    let mut i: u32 = 0;
    while i < 365
        invariant_except_break
            i <= 365,
            valid_date(today),
            days_after(today, 365) is Some,
            limit == day_after(today, 365),
            projected == day_after(today, i as nat),
            counted == allowance_days_within(
                today,
                day_of_week,
                if i == 0 {
                    0nat
                } else {
                    (i - 1) as nat
                },
            ),
            counted <= i,
            forall|k: nat|
                1 <= k < i ==> !#[trigger] goal_reached_on(today, day_of_week, allowances_needed, k),
            c == completion_offset(today, day_of_week, allowances_needed),
            1 <= c <= 365,
            c < 365 ==> goal_reached_on(today, day_of_week, allowances_needed, c),
            forall|k: nat|
                1 <= k < c ==> !#[trigger] goal_reached_on(today, day_of_week, allowances_needed, k),
        ensures
            projected == day_after(today, c),
        decreases 365 - i,
    {
        proof {
            lemma_projection_step(today, i as nat);
        }
        if date_on_or_before(&today, &projected) && today != projected {
            if weekday_from_sunday(projected) == day_of_week as u32 {
                counted = counted + 1;
                if counted >= allowances_needed {
                    assert(goal_reached_on(today, day_of_week, allowances_needed, i as nat));
                    assert(c == i);
                    break;
                }
            }
        }
        assert(counted == allowance_days_within(today, day_of_week, i as nat));
        assert(!goal_reached_on(today, day_of_week, allowances_needed, i as nat));
        projected = match next_date(projected) {
            Some(n) => n,
            None => projected,
        };
        i = i + 1;
        if date_on_or_before(&limit, &projected) && limit != projected {
            proof {
                lemma_key_order(projected, limit);
            }
            return GoalProjection { completion_date: projected, exceeds_time_limit: true };
        }
    }
    proof {
        lemma_projection_step(today, c);
        lemma_projection_step(today, 365);
        lemma_days_after_order(today, c, 365);
        lemma_key_order(projected, limit);
    }
    let exceeds = date_on_or_before(&limit, &projected) && limit != projected;
    GoalProjection { completion_date: projected, exceeds_time_limit: exceeds }
}

} // verus!
