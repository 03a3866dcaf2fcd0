use allowance_tracker::child::{
    generate_safe_directory_name, validate_birthdate, validate_create_command, validate_name,
    validate_update_command, ChildValidationError,
};

#[test]
fn test_simple_validation() {
    let birthdate = "2020-13-01";
    let date_parts: Vec<&str> = birthdate.split('-').collect();
    assert_eq!(date_parts.len(), 3);
    assert_eq!(date_parts[1].parse::<u32>().unwrap(), 13);
    assert_eq!(validate_birthdate(birthdate), Err(ChildValidationError::MonthOutOfRange));
}

#[test]
fn test_validate_birthdate() {
    assert_eq!(validate_birthdate("2020-01-15"), Ok(()));
    assert!(validate_birthdate("not-a-date").is_err());
    assert!(validate_birthdate("2020-13-01").is_err());
    assert!(validate_birthdate("2020-02-30").is_err());
}

#[test]
fn birthdate_errors_in_order() {
    assert_eq!(validate_birthdate("2010/01/01"), Err(ChildValidationError::BirthdateFormat));
    assert_eq!(validate_birthdate("20x0-01-01"), Err(ChildValidationError::BirthdateYear));
    assert_eq!(validate_birthdate("2010-x1-01"), Err(ChildValidationError::BirthdateMonth));
    assert_eq!(validate_birthdate("2010-01-"), Err(ChildValidationError::BirthdateDay));
    assert_eq!(validate_birthdate("1899-01-01"), Err(ChildValidationError::YearOutOfRange));
    assert_eq!(validate_birthdate("2101-01-01"), Err(ChildValidationError::YearOutOfRange));
    assert_eq!(validate_birthdate("2010-00-01"), Err(ChildValidationError::MonthOutOfRange));
    assert_eq!(validate_birthdate("2010-01-32"), Err(ChildValidationError::DayOutOfRange));
    assert_eq!(validate_birthdate("2010-01-00"), Err(ChildValidationError::DayOutOfRange));
    assert_eq!(validate_birthdate("1900-12-31"), Ok(()));
}

#[test]
fn error_messages() {
    assert_eq!(ChildValidationError::EmptyName.message(), "Child name cannot be empty");
    assert_eq!(ChildValidationError::NameTooLong.message(), "Child name cannot exceed 100 characters");
    assert_eq!(ChildValidationError::BirthdateFormat.message(), "Invalid birthdate format. Use YYYY-MM-DD.");
    assert_eq!(ChildValidationError::BirthdateYear.message(), "Invalid year in birthdate");
    assert_eq!(ChildValidationError::BirthdateMonth.message(), "Invalid month in birthdate");
    assert_eq!(ChildValidationError::BirthdateDay.message(), "Invalid day in birthdate");
    assert_eq!(ChildValidationError::YearOutOfRange.message(), "Year must be between 1900 and 2100");
    assert_eq!(ChildValidationError::MonthOutOfRange.message(), "Month must be between 1 and 12");
    assert_eq!(ChildValidationError::DayOutOfRange.message(), "Day must be between 1 and 31");
}

#[test]
fn test_create_child_validation() {
    assert_eq!(validate_create_command(" ", "2010-01-01"), Err(ChildValidationError::EmptyName));
    assert_eq!(validate_create_command(&"a".repeat(101), "2010-01-01"), Err(ChildValidationError::NameTooLong));
    assert_eq!(validate_create_command("Bad Date", "2010/01/01"), Err(ChildValidationError::BirthdateFormat));
    assert_eq!(validate_create_command("Good", "2010-01-01"), Ok(()));
    assert_eq!(validate_name(&"a".repeat(100)), Ok(()));
}

#[test]
fn update_checks_only_given_fields() {
    assert_eq!(validate_update_command(None, None), Ok(()));
    assert_eq!(validate_update_command(Some(""), None), Err(ChildValidationError::EmptyName));
    assert_eq!(validate_update_command(None, Some("2010-13-01")), Err(ChildValidationError::MonthOutOfRange));
    assert_eq!(validate_update_command(Some(" "), Some("bad")), Err(ChildValidationError::EmptyName));
    assert_eq!(validate_update_command(Some("Name"), Some("2011-02-02")), Ok(()));
}

#[test]
fn test_generate_safe_directory_name() {
    assert_eq!(generate_safe_directory_name("Emma Smith"), "emma_smith");
    assert_eq!(generate_safe_directory_name("José María"), "jose_maria");
    assert_eq!(generate_safe_directory_name("Kid #1"), "kid_1");
    assert_eq!(generate_safe_directory_name("Test-Child"), "test_child");
}

#[test]
fn safe_directory_name_trims_underscores() {
    assert_eq!(generate_safe_directory_name("  --Ana--  "), "ana");
    assert_eq!(generate_safe_directory_name("!!!"), "");
    assert_eq!(generate_safe_directory_name("Çedric Ñuñez"), "Çedric_Ñunez");
}

#[test]
fn safe_names_have_no_doubled_or_edge_underscores() {
    for name in ["  Mary -- Ann  ", "__x__", "a  b", "Kid #1 (big)"] {
        let dir = generate_safe_directory_name(name);
        assert!(!dir.contains("__"), "{}", dir);
        assert!(!dir.starts_with('_') && !dir.ends_with('_'), "{}", dir);
    }
    assert_eq!(generate_safe_directory_name("Kid #1 (big)"), "kid_1_big");
}

#[test]
fn birthdate_days_follow_the_month_length() {
    assert_eq!(validate_birthdate("2020-02-30"), Err(ChildValidationError::DayNotInMonth));
    assert_eq!(validate_birthdate("2020-02-29"), Ok(()));
    assert_eq!(validate_birthdate("2021-02-29"), Err(ChildValidationError::DayNotInMonth));
    assert_eq!(validate_birthdate("2000-02-29"), Ok(()));
    assert_eq!(validate_birthdate("2100-02-29"), Err(ChildValidationError::DayNotInMonth));
    assert_eq!(validate_birthdate("2021-04-31"), Err(ChildValidationError::DayNotInMonth));
    assert_eq!(validate_birthdate("2021-12-31"), Ok(()));
    assert_eq!(validate_birthdate("2021-12-32"), Err(ChildValidationError::DayOutOfRange));
    assert_eq!(ChildValidationError::DayNotInMonth.message(), "Day does not exist in that month");
}

#[test]
fn directory_names_are_settled() {
    for name in ["Emma Smith", "Test-Child", "  José María  ", "Kid #1", "__A__B__", "ÇA\tva", "Ana\u{A0}Lu\u{3000}X\u{2009}y"] {
        let once = generate_safe_directory_name(name);
        assert_eq!(generate_safe_directory_name(&once), once);
        assert!(!once.starts_with('_') && !once.ends_with('_'));
        assert!(!once.chars().any(|c| c.is_ascii_uppercase() || c.is_whitespace()));
    }
    assert_eq!(generate_safe_directory_name("Emma Smith"), "emma_smith");
    assert_eq!(generate_safe_directory_name("Test-Child"), "test_child");
    assert_eq!(generate_safe_directory_name("Ana\u{A0}Lu\u{3000}X\u{2009}y"), "ana_lu_x_y");
}
