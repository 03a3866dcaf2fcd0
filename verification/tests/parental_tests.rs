use allowance_tracker::parental::{attempt_counts, next_attempt_id, ParentalControlAnswer, ParentalControlAttempt};

#[test]
fn test_new_attempt() {
    let attempt = ParentalControlAttempt::new(
        1,
        "test_value".to_string(),
        "2025-01-01T00:00:00Z".to_string(),
        true,
    );

    assert_eq!(attempt.id, 1);
    assert_eq!(attempt.attempted_value, "test_value");
    assert_eq!(attempt.timestamp, "2025-01-01T00:00:00Z");
    assert!(attempt.success);
}

#[test]
fn test_is_successful() {
    let success_attempt = ParentalControlAttempt::new(
        1,
        "correct".to_string(),
        "2025-01-01T00:00:00Z".to_string(),
        true,
    );
    let failed_attempt = ParentalControlAttempt::new(
        2,
        "wrong".to_string(),
        "2025-01-01T00:00:00Z".to_string(),
        false,
    );

    assert!(success_attempt.is_successful());
    assert!(!failed_attempt.is_successful());
}

#[test]
fn test_sanitized_attempted_value() {
    let long_attempt = ParentalControlAttempt::new(
        1,
        "verylongpassword".to_string(),
        "2025-01-01T00:00:00Z".to_string(),
        false,
    );
    let short_attempt = ParentalControlAttempt::new(
        2,
        "ab".to_string(),
        "2025-01-01T00:00:00Z".to_string(),
        false,
    );

    assert_eq!(long_attempt.get_sanitized_attempted_value(), "ver...");
    assert_eq!(short_attempt.get_sanitized_attempted_value(), "***");
}

#[test]
fn sanitized_value_at_the_three_byte_edge() {
    let exact = ParentalControlAttempt::new(3, "abc".to_string(), String::new(), false);
    assert_eq!(exact.get_sanitized_attempted_value(), "***");
    let four = ParentalControlAttempt::new(4, "abcd".to_string(), String::new(), false);
    assert_eq!(four.get_sanitized_attempted_value(), "abc...");
}

#[test]
fn default_answer_is_ice_cold() {
    let answer = ParentalControlAnswer::new();
    assert_eq!(answer.get_correct_answer(), "ice cold");
    let (result, attempted) = answer.validate_answer("  ICE Cold  ");
    assert!(result.success);
    assert_eq!(result.message, "Access granted! Welcome to parental settings.");
    assert_eq!(attempted, "ICE Cold");
}

#[test]
fn wrong_answer_is_denied() {
    let answer = ParentalControlAnswer::new();
    let (result, attempted) = answer.validate_answer(" warm ");
    assert!(!result.success);
    assert_eq!(result.message, "Incorrect answer. Access denied.");
    assert_eq!(attempted, "warm");
}

#[test]
fn custom_answer_is_lowercased_and_trimmed() {
    let answer = ParentalControlAnswer::with_answer("  Blue Sky ");
    assert_eq!(answer.get_correct_answer(), "blue sky");
    assert!(answer.validate_answer("BLUE SKY").0.success);
}

#[test]
fn attempt_counts_split_successes_and_failures() {
    let attempts = vec![
        ParentalControlAttempt::new(1, "a".to_string(), String::new(), true),
        ParentalControlAttempt::new(2, "b".to_string(), String::new(), false),
        ParentalControlAttempt::new(3, "c".to_string(), String::new(), false),
    ];
    assert_eq!(attempt_counts(&attempts), (3, 1, 2));
    assert_eq!(attempt_counts(&Vec::new()), (0, 0, 0));
}

#[test]
fn next_attempt_id_follows_the_largest() {
    assert_eq!(next_attempt_id(&Vec::new()), 1);
    assert_eq!(next_attempt_id(&vec![3, 9, 4]), 10);
    assert_eq!(next_attempt_id(&vec![-5, -2]), 1);
}
