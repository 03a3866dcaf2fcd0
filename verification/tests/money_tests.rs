use allowance_tracker::money::{
    amount_text, money_error_message, validate_money_form_with_date, realtime_amount_message, validate_money_form, AmountReading,
    MoneyFormValidation, MoneyValidationError,
    clean_money_amount, clear_form_after_success, create_form_state, description_problem,
    empty_amount_hint, empty_description_hint, get_description_suggestions,
    get_spending_suggestions, invalid_amount_hint, set_form_error, set_form_submitting,
    update_form_state_with_validation, DescriptionProblem, MoneyForm,
};

#[test]
fn test_form_state_management() {
    let initial_state = create_form_state();
    assert_eq!(initial_state.description, "");
    assert_eq!(initial_state.amount_input, "");
    assert!(!initial_state.is_submitting);
    assert!(initial_state.error_message.is_none());

    let submitting_state = set_form_submitting(initial_state);
    assert!(submitting_state.is_submitting);
    assert!(submitting_state.error_message.is_none());

    let error_state = set_form_error(submitting_state, "Test error".to_string());
    assert!(!error_state.is_submitting);
    assert_eq!(error_state.error_message, Some("Test error".to_string()));

    let success_state = clear_form_after_success(error_state, "Success!".to_string());
    assert_eq!(success_state.description, "");
    assert_eq!(success_state.amount_input, "");
    assert!(!success_state.is_submitting);
    assert!(success_state.error_message.is_none());
    assert_eq!(success_state.success_message, Some("Success!".to_string()));
    assert!(success_state.show_success);
}

#[test]
fn test_description_suggestions() {
    let suggestions = get_description_suggestions();
    assert!(!suggestions.is_empty());
    assert!(suggestions.contains(&"Birthday gift".to_string()));
    assert!(suggestions.contains(&"Chores completed".to_string()));
}

#[test]
fn test_get_spending_suggestions() {
    let suggestions = get_spending_suggestions();
    assert!(!suggestions.is_empty());
    assert!(suggestions.contains(&"Toy".to_string()));
    assert!(suggestions.contains(&"Candy".to_string()));
}

#[test]
fn money_management_test_clean_and_parse_amount() {
    let parse = |s: &str| -> Result<f64, String> {
        let cleaned = clean_money_amount(s, "$")?;
        cleaned.parse::<f64>().map_err(|e| format!("Invalid number format: {}", e))
    };
    assert_eq!(parse("10.50").unwrap(), 10.50);
    assert_eq!(parse("$10.50").unwrap(), 10.50);
    assert_eq!(parse(" $1,234.56 ").unwrap(), 1234.56);
    assert_eq!(parse("5").unwrap(), 5.0);

    assert!(parse("abc").is_err());
    assert!(parse("").is_err());
}

#[test]
fn cleaning_reports_an_empty_amount() {
    assert_eq!(clean_money_amount(" $ , ", "$"), Err("Empty amount after cleaning".to_string()));
    assert_eq!(clean_money_amount("€5", "€"), Ok("5".to_string()));
    assert_eq!(clean_money_amount("$5", ""), Ok("$5".to_string()));
}

#[test]
fn description_problems_and_hints() {
    assert_eq!(description_problem("   ", 100), Some(DescriptionProblem::Empty));
    assert_eq!(description_problem("  Gift  ", 4), None);
    assert_eq!(description_problem("  Gifts  ", 4), Some(DescriptionProblem::TooLong(5)));
    assert_eq!(empty_description_hint(MoneyForm::AddMoney), "Try: Gift from grandma, gift from aunt...");
    assert_eq!(empty_description_hint(MoneyForm::SpendMoney), "Try: Toy, book, game...");
    assert_eq!(empty_amount_hint(MoneyForm::SpendMoney), "Enter how much you spent, like $2.50 or $5");
    assert_eq!(invalid_amount_hint(MoneyForm::AddMoney), "Enter a valid number like $5.00 or $10");
}

#[test]
fn validation_outcome_sets_the_first_error() {
    let state = set_form_error(create_form_state(), "old".to_string());
    let cleared = update_form_state_with_validation(state, true, Some("ignored".to_string()));
    assert_eq!(cleared.error_message, None);
    let failed = update_form_state_with_validation(cleared, false, Some("Please enter an amount".to_string()));
    assert_eq!(failed.error_message, Some("Please enter an amount".to_string()));
}

fn has_too_many_decimal_places(amount: f64) -> bool {
    let text = format!("{:.3}", amount);
    match text.find('.') {
        Some(p) => {
            let decimals = &text[p + 1..];
            decimals.len() > 2 && !decimals.ends_with('0')
        }
        None => false,
    }
}

fn reading(input: &str) -> (AmountReading, Option<f64>) {
    match amount_text(input, "$") {
        Err(r) => (r, None),
        Ok(cleaned) => match cleaned.parse::<f64>() {
            Err(e) => (AmountReading::Unreadable(format!("Invalid number format: {}", e)), None),
            Ok(a) => (
                AmountReading::Read {
                    not_positive: a <= 0.0,
                    below_min: a < 0.01,
                    above_max: a > 1_000_000.0,
                    too_precise: has_too_many_decimal_places(a),
                },
                Some(a),
            ),
        },
    }
}

fn validate(form: MoneyForm, description: &str, input: &str) -> (MoneyFormValidation, Option<f64>) {
    let (r, amount) = reading(input);
    let v = validate_money_form(form, description, 256, r, "$0.01", "$1000000.00");
    let cleaned = if v.errors.iter().any(|e| {
        !matches!(e, MoneyValidationError::EmptyDescription | MoneyValidationError::DescriptionTooLong(_))
    }) {
        None
    } else {
        amount
    };
    (v, cleaned)
}

#[test]
fn test_validate_add_money_form_success() {
    let (validation, cleaned_amount) = validate(MoneyForm::AddMoney, "Birthday gift", "10.50");
    assert!(validation.is_valid);
    assert!(validation.errors.is_empty());
    assert_eq!(cleaned_amount, Some(10.50));
    assert!(validation.suggestions.is_empty());
}

#[test]
fn test_validate_add_money_form_empty_description() {
    let (validation, _) = validate(MoneyForm::AddMoney, "", "10.50");
    assert!(!validation.is_valid);
    assert!(matches!(validation.errors[0], MoneyValidationError::EmptyDescription));
    assert!(!validation.suggestions.is_empty());
}

#[test]
fn test_validate_add_money_form_invalid_amount() {
    let (validation, _) = validate(MoneyForm::AddMoney, "Valid description", "abc");
    assert!(!validation.is_valid);
    assert!(matches!(validation.errors[0], MoneyValidationError::InvalidAmountFormat(_)));
    assert!(!validation.suggestions.is_empty());
}

#[test]
fn test_validate_add_money_form_negative_amount() {
    let (validation, _) = validate(MoneyForm::AddMoney, "Valid description", "-5.00");
    assert!(!validation.is_valid);
    assert!(matches!(validation.errors[0], MoneyValidationError::AmountNotPositive));
}

#[test]
fn test_validate_spend_money_form_success() {
    let (validation, cleaned_amount) = validate(MoneyForm::SpendMoney, "Toy", "3.25");
    assert!(validation.is_valid);
    assert!(validation.errors.is_empty());
    assert_eq!(cleaned_amount, Some(3.25));
    assert!(validation.suggestions.is_empty());
}

#[test]
fn test_validate_spend_money_form_empty_description() {
    let (validation, _) = validate(MoneyForm::SpendMoney, "", "5.00");
    assert!(!validation.is_valid);
    assert!(matches!(validation.errors[0], MoneyValidationError::EmptyDescription));
    assert!(!validation.suggestions.is_empty());
    assert!(validation.suggestions[0].contains("Toy"));
}

#[test]
fn test_validate_spend_money_form_invalid_amount() {
    let (validation, _) = validate(MoneyForm::SpendMoney, "Valid description", "invalid");
    assert!(!validation.is_valid);
    assert!(matches!(validation.errors[0], MoneyValidationError::InvalidAmountFormat(_)));
    assert!(!validation.suggestions.is_empty());
}

#[test]
fn money_form_checks_in_order() {
    let (v, _) = validate(MoneyForm::AddMoney, "   ", "   ");
    assert_eq!(v.errors, vec![MoneyValidationError::EmptyDescription, MoneyValidationError::EmptyAmount]);
    assert_eq!(
        v.suggestions,
        vec![
            "Try: Gift from grandma, gift from aunt...".to_string(),
            "Enter a positive amount like $5.00 or $10".to_string(),
        ]
    );
    let (v, _) = validate(MoneyForm::AddMoney, "Gift", "0.001");
    assert_eq!(v.errors, vec![MoneyValidationError::AmountTooSmall]);
    assert_eq!(v.suggestions, vec!["Minimum amount is $0.01".to_string()]);
    let (v, _) = validate(MoneyForm::AddMoney, "Gift", "2000000");
    assert_eq!(v.errors, vec![MoneyValidationError::AmountTooLarge]);
    let (v, _) = validate(MoneyForm::AddMoney, "Gift", "5.255");
    assert_eq!(v.errors, vec![MoneyValidationError::AmountPrecisionTooHigh]);
    assert_eq!(v.suggestions, vec!["Use at most 2 decimal places (like $5.25)".to_string()]);
    let (v, _) = validate(MoneyForm::AddMoney, &"g".repeat(300), "5");
    assert_eq!(v.errors, vec![MoneyValidationError::DescriptionTooLong(300)]);
    assert!(v.suggestions.is_empty());
}

#[test]
fn test_error_messages() {
    let message = |e: &MoneyValidationError| money_error_message(e, 256, "$0.01", "$1000000.00");
    assert_eq!(message(&MoneyValidationError::EmptyDescription), "Please enter a description");
    assert_eq!(message(&MoneyValidationError::AmountNotPositive), "Amount must be greater than 0");
    assert!(message(&MoneyValidationError::DescriptionTooLong(300)).contains("too long"));
    assert_eq!(
        message(&MoneyValidationError::DescriptionTooLong(300)),
        "Description is too long (300 characters). Maximum is 256."
    );
    assert_eq!(message(&MoneyValidationError::AmountTooSmall), "Amount is too small. Minimum is $0.01");
    assert_eq!(
        message(&MoneyValidationError::InvalidAmountFormat("x".to_string())),
        "Please enter a valid amount (like 5 or 5.00): x"
    );
}

#[test]
fn test_realtime_validation() {
    let check = |input: &str| realtime_amount_message(&reading(input).0, "$1000000.00");
    assert_eq!(check("10.50"), None);
    assert_eq!(check(""), Some("Enter an amount".to_string()));
    assert_eq!(check("abc"), Some("Invalid number".to_string()));
    assert_eq!(check("0"), Some("Must be greater than 0".to_string()));
    assert_eq!(check("-5"), Some("Must be greater than 0".to_string()));
    assert_eq!(check("5000000"), Some("Maximum is $1000000.00".to_string()));
}

fn now_parts() -> (i64, u32) {
    let now = chrono::Utc::now();
    (now.timestamp(), now.timestamp_subsec_nanos())
}

#[test]
fn test_validate_add_money_form_with_date_valid() {
    let valid_date = chrono::Utc::now()
        .checked_sub_signed(chrono::Duration::days(5))
        .unwrap()
        .to_rfc3339();
    let (validation, _) = validate(MoneyForm::AddMoney, "Birthday gift", "25.00");
    let (secs, nanos) = now_parts();
    let validation = validate_money_form_with_date(validation, Some(&valid_date), secs, nanos);
    assert!(validation.is_valid);
}

#[test]
fn test_validate_add_money_form_with_date_invalid_date() {
    let future_date = chrono::Utc::now()
        .checked_add_signed(chrono::Duration::days(1))
        .unwrap()
        .to_rfc3339();
    let (validation, _) = validate(MoneyForm::AddMoney, "Birthday gift", "25.00");
    let (secs, nanos) = now_parts();
    let validation = validate_money_form_with_date(validation, Some(&future_date), secs, nanos);
    assert!(!validation.is_valid);
    assert!(!validation.errors.is_empty());
}

#[test]
fn a_form_without_a_date_keeps_its_outcome() {
    let (validation, _) = validate(MoneyForm::SpendMoney, "", "3.25");
    let before = validation.errors.clone();
    let validation = validate_money_form_with_date(validation, None, 1_750_000_000, 0);
    assert_eq!(validation.errors, before);
    assert!(!validation.is_valid);
}

#[test]
fn a_refused_date_is_added_after_the_form_errors() {
    let (validation, _) = validate(MoneyForm::AddMoney, "", "25.00");
    // 2025-06-15T16:00:00Z
    let validation = validate_money_form_with_date(validation, Some("2025-07-01"), 1_750_003_200, 0);
    assert_eq!(
        validation.errors,
        vec![
            MoneyValidationError::EmptyDescription,
            MoneyValidationError::InvalidAmountFormat("Transaction date cannot be in the future".to_string()),
        ]
    );
}
