use allowance_tracker::dates::{
    add_days, date_on_or_before, format_ymd, is_allowance_day, next_date, weekday_from_sunday, Date,
    MAX_YEAR,
};

fn d(year: i32, month: u32, day: u32) -> Date {
    Date { year, month, day }
}

#[test]
fn test_is_allowance_day() {
    let monday = d(2025, 6, 30);
    let tuesday = d(2025, 7, 1);
    let sunday = d(2025, 7, 6);

    assert_eq!(weekday_from_sunday(monday), 1);
    assert_eq!(weekday_from_sunday(tuesday), 2);
    assert_eq!(weekday_from_sunday(sunday), 0);

    assert!(is_allowance_day(monday, 1));
    assert!(is_allowance_day(tuesday, 2));
    assert!(is_allowance_day(sunday, 0));

    assert!(!is_allowance_day(monday, 0));
    assert!(!is_allowance_day(tuesday, 1));
    assert!(!is_allowance_day(sunday, 6));
}

#[test]
fn weekdays_before_the_epoch_and_far_ahead() {
    assert_eq!(weekday_from_sunday(d(1970, 1, 1)), 4);
    assert_eq!(weekday_from_sunday(d(1969, 12, 31)), 3);
    assert_eq!(weekday_from_sunday(d(1900, 1, 1)), 1);
    assert_eq!(weekday_from_sunday(d(2000, 2, 29)), 2);
    assert_eq!(weekday_from_sunday(d(-1, 1, 1)), 5);
    assert_eq!(weekday_from_sunday(d(10000, 1, 1)), 6);
}

#[test]
fn next_date_crosses_months_and_years() {
    assert_eq!(next_date(d(2025, 1, 31)), Some(d(2025, 2, 1)));
    assert_eq!(next_date(d(2024, 2, 28)), Some(d(2024, 2, 29)));
    assert_eq!(next_date(d(2024, 2, 29)), Some(d(2024, 3, 1)));
    assert_eq!(next_date(d(2025, 2, 28)), Some(d(2025, 3, 1)));
    assert_eq!(next_date(d(2025, 12, 31)), Some(d(2026, 1, 1)));
    assert_eq!(next_date(d(MAX_YEAR, 12, 31)), None);
}

#[test]
fn consecutive_days_have_consecutive_weekdays() {
    let mut day = d(2023, 12, 20);
    for _ in 0..500 {
        let next = next_date(day).unwrap();
        assert_eq!(weekday_from_sunday(next), (weekday_from_sunday(day) + 1) % 7);
        assert!(date_on_or_before(&day, &next) && day != next);
        day = next;
    }
}

#[test]
fn add_days_steps_day_by_day() {
    assert_eq!(add_days(d(2025, 1, 1), 0), Some(d(2025, 1, 1)));
    assert_eq!(add_days(d(2025, 1, 1), 365), Some(d(2026, 1, 1)));
    assert_eq!(add_days(d(2024, 1, 1), 365), Some(d(2024, 12, 31)));
    assert_eq!(add_days(d(MAX_YEAR, 12, 30), 2), None);
}

#[test]
fn ymd_text_pads_and_signs_years() {
    assert_eq!(format_ymd(d(2025, 6, 3)), "2025-06-03");
    assert_eq!(format_ymd(d(987, 12, 25)), "0987-12-25");
    assert_eq!(format_ymd(d(12345, 1, 1)), "+12345-01-01");
    assert_eq!(format_ymd(d(-44, 3, 15)), "-0044-03-15");
}
