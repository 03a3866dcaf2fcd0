use allowance_tracker::table::{
    AmountFormat, AmountType, DateFormat, TransactionTableConfig, TransactionTableService,
    ValidationError,
};

#[test]
fn test_different_date_formats() {
    let mut config = TransactionTableConfig::default();

    config.date_format = DateFormat::ShortDate;
    let service = TransactionTableService::with_config(config.clone());
    assert_eq!(service.format_date("2025-06-13T09:00:00-04:00"), "06/13/2025");

    config.date_format = DateFormat::ISO;
    let service = TransactionTableService::with_config(config);
    assert_eq!(service.format_date("2025-06-13T09:00:00-04:00"), "2025-06-13");
}

#[test]
fn test_validation_error_messages() {
    let service = TransactionTableService::new();

    let error = ValidationError::EmptyDescription;
    assert_eq!(service.validation_error_message(&error), "Please enter a description");

    let error = ValidationError::AmountNotPositive;
    assert_eq!(service.validation_error_message(&error), "Amount must be greater than 0");
}

#[test]
fn transaction_table_test_clean_and_parse_amount() {
    let service = TransactionTableService::new();
    let parse = |s: &str| service.clean_amount_input(s).parse::<f64>();

    assert_eq!(parse("10.50").unwrap(), 10.50);
    assert_eq!(parse("$10.50").unwrap(), 10.50);
    assert_eq!(parse(" $1,234.56 ").unwrap(), 1234.56);
    assert_eq!(parse("5").unwrap(), 5.0);

    assert!(parse("abc").is_err());
    assert!(parse("").is_err());
}

#[test]
fn default_config_and_month_day_year_format() {
    let config = TransactionTableConfig::default();
    assert!(config.show_currency_symbol);
    assert_eq!(config.decimal_places, 2);
    assert_eq!(config.date_format, DateFormat::MonthDayYear);
    assert_eq!(config.amount_format, AmountFormat::PlusMinusSign);
    let service = TransactionTableService::new();
    assert_eq!(service.format_date("2025-06-13T09:00:00-04:00"), "June 13, 2025");
    assert_eq!(service.format_date("not a date"), "not a date");
}

#[test]
fn parse_date_and_month_name() {
    let service = TransactionTableService::new();
    assert_eq!(service.parse_date("2025-06-13T09:00:00-04:00"), Some((2025, 6, 13)));
    assert_eq!(service.parse_date("garbage"), None);
    assert_eq!(service.month_name(2), "February");
    assert_eq!(service.month_name(0), "Invalid Month");
}

#[test]
fn description_rules() {
    let service = TransactionTableService::new();
    assert!(matches!(service.description_error("   "), Some(ValidationError::EmptyDescription)));
    assert!(service.description_error("Lunch").is_none());
    let long = "x".repeat(257);
    assert!(matches!(service.description_error(&long), Some(ValidationError::DescriptionTooLong(257))));
    let limit = "x".repeat(256);
    assert!(service.description_error(&limit).is_none());
}

#[test]
fn css_classes_and_all_messages() {
    let service = TransactionTableService::new();
    assert_eq!(service.css_class_for(AmountType::Positive), "amount positive");
    assert_eq!(service.css_class_for(AmountType::Negative), "amount negative");
    assert_eq!(service.css_class_for(AmountType::Zero), "amount zero");
    let errors = vec![
        ValidationError::DescriptionTooLong(300),
        ValidationError::InvalidAmount("bad".to_string()),
        ValidationError::AmountTooLarge,
        ValidationError::AmountTooSmall,
    ];
    assert_eq!(
        service.validation_error_messages(&errors),
        vec![
            "Description is too long (300 characters). Maximum is 256.".to_string(),
            "Please enter a valid amount (like 5 or 5.00): bad".to_string(),
            "Amount is too large. Maximum is $1,000,000".to_string(),
            "Amount is too small. Minimum is $0.01".to_string(),
        ]
    );
}

fn format_amount(service: &TransactionTableService, amount: f64) -> String {
    service.format_amount_text(&format!("{:.2}", amount.abs()), amount < 0.0)
}

fn format_balance(service: &TransactionTableService, balance: f64) -> String {
    service.format_balance_text(&format!("{:.2}", balance))
}

#[test]
fn test_different_amount_formats() {
    let mut config = TransactionTableConfig::default();

    config.amount_format = AmountFormat::ParenthesesNeg;
    let service = TransactionTableService::with_config(config.clone());
    assert_eq!(format_amount(&service, 10.0), "$10.00");
    assert_eq!(format_amount(&service, -10.0), "($10.00)");

    config.amount_format = AmountFormat::ColorOnly;
    let service = TransactionTableService::with_config(config);
    assert_eq!(format_amount(&service, 10.0), "$10.00");
    assert_eq!(format_amount(&service, -10.0), "$10.00");
}

#[test]
fn transaction_table_test_format_negative_amount() {
    let service = TransactionTableService::new();
    assert_eq!(format_amount(&service, -5.25), "-$5.25");
}

#[test]
fn amounts_and_balances_follow_the_configuration() {
    let service = TransactionTableService::new();
    assert_eq!(format_amount(&service, 10.50), "+$10.50");
    assert_eq!(format_amount(&service, 0.0), "+$0.00");
    assert_eq!(format_balance(&service, 100.50), "$100.50");
    assert_eq!(format_balance(&service, -3.0), "$-3.00");

    let mut config = TransactionTableConfig::default();
    config.show_currency_symbol = false;
    let service = TransactionTableService::with_config(config);
    assert_eq!(service.format_amount_text("7.00", true), "-7.00");
    assert_eq!(service.format_balance_text("7.00"), "7.00");
}
