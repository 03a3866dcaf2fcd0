use allowance_tracker::dates::{weekday_from_sunday, Date};
use allowance_tracker::goal::{
    check_goal_description, goal_id, project_goal_completion, DomainGoalState, GoalMapper,
    GoalState, GoalValidationError,
};

fn d(year: i32, month: u32, day: u32) -> Date {
    Date { year, month, day }
}

#[test]
fn goal_state_text_round_trip() {
    for state in [DomainGoalState::Active, DomainGoalState::Cancelled, DomainGoalState::Completed] {
        assert_eq!(DomainGoalState::from_string(&state.to_string()), Ok(state));
    }
    assert_eq!(DomainGoalState::Active.to_string(), "active");
    assert_eq!(DomainGoalState::Cancelled.to_string(), "cancelled");
    assert_eq!(DomainGoalState::Completed.to_string(), "completed");
    assert_eq!(DomainGoalState::from_string("COMPLETED"), Ok(DomainGoalState::Completed));
    assert_eq!(DomainGoalState::from_string("paused"), Err("Invalid goal state: paused".to_string()));
}

#[test]
fn goal_state_mapping_round_trip() {
    for state in [GoalState::Active, GoalState::Cancelled, GoalState::Completed] {
        assert_eq!(GoalMapper::goal_state_to_dto(GoalMapper::goal_state_to_domain(state)), state);
    }
    assert_eq!(GoalMapper::goal_state_to_domain(GoalState::Cancelled), DomainGoalState::Cancelled);
}

#[test]
fn goal_validation_messages() {
    assert_eq!(GoalValidationError::EmptyDescription.message(), "Description cannot be empty");
    assert_eq!(GoalValidationError::DescriptionTooLong.message(), "Description is too long");
    assert_eq!(GoalValidationError::NonPositiveTargetAmount.message(), "Target amount must be positive");
    assert_eq!(
        GoalValidationError::TargetAmountNotGreaterThanBalance.message(),
        "Target amount must be greater than current balance"
    );
    assert_eq!(GoalValidationError::ActiveGoalAlreadyExists.message(), "Child already has an active goal");
}

#[test]
fn goal_description_rules() {
    assert_eq!(check_goal_description("  New bike "), Ok("New bike".to_string()));
    assert_eq!(check_goal_description("   "), Err(GoalValidationError::EmptyDescription));
    assert_eq!(check_goal_description(&"b".repeat(257)), Err(GoalValidationError::DescriptionTooLong));
}

#[test]
fn goal_ids() {
    assert_eq!(goal_id("child::1", 1700000000000), "goal::child::1_1700000000000");
}

#[test]
fn projection_counts_allowance_days_after_today() {
    // 2025-07-02 is a Wednesday; Sundays follow on 07-06, 07-13, 07-20.
    let today = d(2025, 7, 2);
    let p = project_goal_completion(today, 0, 3);
    assert_eq!(p.completion_date, d(2025, 7, 20));
    assert!(!p.exceeds_time_limit);
    assert_eq!(project_goal_completion(today, 0, 1).completion_date, d(2025, 7, 6));
    // Needing none still waits for the first allowance day.
    assert_eq!(project_goal_completion(today, 0, 0).completion_date, d(2025, 7, 6));
}

#[test]
fn projection_never_counts_today() {
    let today = d(2025, 7, 6);
    assert_eq!(weekday_from_sunday(today), 0);
    assert_eq!(project_goal_completion(today, 0, 1).completion_date, d(2025, 7, 13));
}

#[test]
fn projection_stops_at_one_year() {
    let today = d(2025, 7, 2);
    let p = project_goal_completion(today, 3, 60);
    assert_eq!(p.completion_date, d(2026, 7, 2));
    assert!(!p.exceeds_time_limit);
    // A weekday number past Saturday never matches.
    assert_eq!(project_goal_completion(today, 9, 1).completion_date, d(2026, 7, 2));
}

#[test]
fn goal_service_messages() {
    assert_eq!(GoalValidationError::EmptyDescription.service_message(), Some("Goal description cannot be empty"));
    assert_eq!(
        GoalValidationError::DescriptionTooLong.service_message(),
        Some("Goal description cannot exceed 256 characters")
    );
    assert_eq!(
        GoalValidationError::NonPositiveTargetAmount.service_message(),
        Some("Goal target amount must be positive")
    );
    assert_eq!(
        GoalValidationError::ActiveGoalAlreadyExists.service_message(),
        Some("Child already has an active goal. Cancel or complete the existing goal first.")
    );
    assert_eq!(GoalValidationError::TargetAmountNotGreaterThanBalance.service_message(), None);
}
