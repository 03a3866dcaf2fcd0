use allowance_tracker::calendar::CalendarService;

#[test]
fn test_days_in_month() {
    let service = CalendarService::new();

    assert_eq!(service.days_in_month(1, 2025), 31);
    assert_eq!(service.days_in_month(4, 2025), 30);
    assert_eq!(service.days_in_month(2, 2025), 28);
    assert_eq!(service.days_in_month(2, 2024), 29);
}

#[test]
fn test_is_leap_year() {
    let service = CalendarService::new();

    assert!(!service.is_leap_year(2025));
    assert!(service.is_leap_year(2024));
    assert!(!service.is_leap_year(1900));
    assert!(service.is_leap_year(2000));
}

#[test]
fn test_month_name() {
    let service = CalendarService::new();

    assert_eq!(service.month_name(1), "January");
    assert_eq!(service.month_name(6), "June");
    assert_eq!(service.month_name(12), "December");
    assert_eq!(service.month_name(13), "Invalid Month");
}

#[test]
fn test_parse_transaction_date() {
    let service = CalendarService::new();

    assert_eq!(service.parse_transaction_date("2025-06-13T09:00:00-04:00"), Some((2025, 6, 13)));
    assert_eq!(service.parse_transaction_date("invalid-date"), None);
}

#[test]
fn test_format_date_for_display() {
    let service = CalendarService::new();

    assert_eq!(service.format_date_for_display("2025-06-13T09:00:00-04:00"), "June 13, 2025");
    assert_eq!(service.format_date_for_display("invalid-date"), "invalid-date");
}

#[test]
fn test_navigation() {
    let service = CalendarService::new();

    assert_eq!(service.previous_month(6, 2025), (5, 2025));
    assert_eq!(service.previous_month(1, 2025), (12, 2024));

    assert_eq!(service.next_month(6, 2025), (7, 2025));
    assert_eq!(service.next_month(12, 2025), (1, 2026));
}

#[test]
fn first_day_of_month_matches_known_weekdays() {
    let service = CalendarService::new();
    // 1970-01-01 was a Thursday, 2025-06-01 a Sunday, 2024-02-01 a Thursday.
    assert_eq!(service.first_day_of_month(1, 1970), 4);
    assert_eq!(service.first_day_of_month(6, 2025), 0);
    assert_eq!(service.first_day_of_month(2, 2024), 4);
    assert_eq!(service.first_day_of_month(3, 2024), 5);
    assert_eq!(service.first_day_of_month(1, 2000), 6);
}

#[test]
fn consecutive_months_start_on_following_weekdays() {
    let service = CalendarService::new();
    for year in [1999u32, 2000, 2023, 2024, 2025] {
        for month in 1..12u32 {
            let start = service.first_day_of_month(month, year);
            let len = service.days_in_month(month, year);
            assert_eq!(service.first_day_of_month(month + 1, year), (start + len) % 7);
        }
        let dec = service.first_day_of_month(12, year);
        assert_eq!(service.first_day_of_month(1, year + 1), (dec + 31) % 7);
    }
}

#[test]
fn next_and_previous_month_undo_each_other() {
    let service = CalendarService::new();
    for month in 1..=12u32 {
        let (m, y) = service.next_month(month, 2025);
        assert_eq!(service.previous_month(m, y), (month, 2025));
        let (m, y) = service.previous_month(month, 2025);
        assert_eq!(service.next_month(m, y), (month, 2025));
    }
}

#[test]
fn parse_rejects_malformed_dates() {
    let service = CalendarService::new();
    assert_eq!(service.parse_transaction_date("2025-06"), None);
    assert_eq!(service.parse_transaction_date("2025-06-13-01"), None);
    assert_eq!(service.parse_transaction_date("2025-0x-13"), None);
    assert_eq!(service.parse_transaction_date("99999999999-01-01"), None);
    assert_eq!(service.parse_transaction_date("+2025-06-13"), Some((2025, 6, 13)));
    assert_eq!(service.parse_transaction_date("2025-06-13"), Some((2025, 6, 13)));
}

#[test]
fn transactions_on_day_keeps_the_days_transactions() {
    let service = CalendarService::new();
    let dates = vec![
        "2025-06-01T09:00:00-04:00".to_string(),
        "2025-06-01T15:00:00-04:00".to_string(),
        "2025-06-15T12:00:00-04:00".to_string(),
        "2025-05-30T12:00:00-04:00".to_string(),
    ];
    assert_eq!(service.transactions_on_day(6, 2025, 1, &dates), vec![0, 1]);
    assert_eq!(service.transactions_on_day(6, 2025, 15, &dates), vec![2]);
    assert!(service.transactions_on_day(6, 2025, 30, &dates).is_empty());
    assert_eq!(service.transactions_on_day(5, 2025, 30, &dates), vec![3]);
}

#[test]
fn starting_transaction_is_the_earliest_in_the_month() {
    let service = CalendarService::new();
    let dates = vec![
        "2025-06-01T09:00:00-04:00".to_string(),
        "2025-06-15T12:00:00-04:00".to_string(),
        "2025-06-15T08:00:00-04:00".to_string(),
        "2025-05-30T12:00:00-04:00".to_string(),
    ];
    assert_eq!(service.starting_transaction(6, 2025, &dates), Some(0));
    assert_eq!(service.starting_transaction(5, 2025, &dates), Some(3));
    assert_eq!(service.starting_transaction(7, 2025, &dates), None);
    // Ties on the day go to the first listed.
    let same_day = vec![
        "2025-06-15T12:00:00-04:00".to_string(),
        "2025-06-15T08:00:00-04:00".to_string(),
        "2025-06-20T08:00:00-04:00".to_string(),
    ];
    assert_eq!(service.starting_transaction(6, 2025, &same_day), Some(0));
}

#[test]
fn month_cells_pad_to_the_first_weekday() {
    let service = CalendarService::new();
    // June 2025 starts on a Sunday; February 2024 on a Thursday.
    let june = service.month_cells(6, 2025);
    assert_eq!(june.len(), 30);
    assert_eq!(june[0], 1);
    assert_eq!(june[29], 30);
    let feb = service.month_cells(2, 2024);
    assert_eq!(feb.len(), 4 + 29);
    assert_eq!(&feb[..5], &[0, 0, 0, 0, 1]);
    assert_eq!(feb[32], 29);
}

#[test]
fn each_month_starts_after_the_last() {
    let service = CalendarService::new();
    assert_eq!(service.first_day_of_month(1, 1970), 4);
    assert_eq!(service.first_day_of_month(1, 2025), 3);
    assert_eq!(service.first_day_of_month(6, 2025), 0);
    for (month, year) in [(1u32, 2024u32), (2, 2024), (2, 2025), (12, 2024), (6, 2025), (12, 1999)] {
        let (m2, y2) = service.next_month(month, year);
        assert_eq!(
            service.first_day_of_month(m2, y2),
            (service.first_day_of_month(month, year) + service.days_in_month(month, year)) % 7
        );
    }
}

#[test]
fn months_fit_up_to_the_u32_day_count() {
    let service = CalendarService::new();
    assert!(service.month_fits(1, 1970));
    assert!(service.month_fits(12, 2025));
    assert!(!service.month_fits(0, 2025));
    assert!(!service.month_fits(13, 2025));
    assert!(!service.month_fits(6, 1969));
    // Near the end of the u32 day count: about 11.76 million years on.
    assert!(service.month_fits(1, 11_758_000));
    assert_eq!(service.first_day_of_month(1, 11_758_000) < 7, true);
    assert!(!service.month_fits(12, u32::MAX));
}
