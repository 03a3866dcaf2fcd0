use allowance_tracker::storage::{CsvConnection, CsvTransactionRepository};
use allowance_tracker::timestamps::{
    is_backdated_transaction, restore_offset_colon, validate_transaction_date, TimestampError,
};

fn repo() -> CsvTransactionRepository {
    CsvTransactionRepository::new(CsvConnection::new("/tmp/unused"))
}

#[test]
fn offset_colon_is_put_back() {
    assert_eq!(restore_offset_colon("2025-06-13T09:00:00-0400"), "2025-06-13T09:00:00-04:00");
    assert_eq!(restore_offset_colon("2025-06-13T09:00:00+0530"), "2025-06-13T09:00:00+05:30");
    assert_eq!(restore_offset_colon("2025-06-13T09:00:00-04:00"), "2025-06-13T09:00:00-04:00");
    assert_eq!(restore_offset_colon("2025-06-13"), "2025-06-13");
    assert_eq!(restore_offset_colon("2025-06-13T09:00:00Z"), "2025-06-13T09:00:00Z");
}

#[test]
fn conflicting_timestamps_move_forward_one_second() {
    let existing = vec![
        "2025-06-13T09:00:00-0400".to_string(),
        "2025-06-13T09:00:01-0400".to_string(),
    ];
    assert_eq!(
        repo().resolve_timestamp_conflict("2025-06-13T09:00:00-0400", &existing),
        Ok("2025-06-13T09:00:02-0400".to_string())
    );
    assert_eq!(
        repo().resolve_timestamp_conflict("2025-06-13T09:00:05-04:00", &existing),
        Ok("2025-06-13T09:00:05-0400".to_string())
    );
    assert_eq!(
        repo().resolve_timestamp_conflict("2025-12-31T23:59:59-0500", &vec!["2025-12-31T23:59:59-0500".to_string()]),
        Ok("2026-01-01T00:00:00-0500".to_string())
    );
}

#[test]
fn unreadable_timestamps_are_refused() {
    assert_eq!(repo().resolve_timestamp_conflict("nonsense", &Vec::new()), Err(TimestampError::Unparseable));
}

#[test]
fn dates_are_normalized_to_timestamps() {
    let r = repo();
    assert_eq!(r.normalize_transaction_date("2025-06-13", &Vec::new()), Ok("2025-06-13T00:00:00-0500".to_string()));
    assert_eq!(
        r.normalize_transaction_date("2025-06-13", &vec!["2025-06-13T00:00:00-0500".to_string()]),
        Ok("2025-06-13T00:00:01-0500".to_string())
    );
    assert_eq!(r.normalize_transaction_date("2025-06-13T09:00:00Z", &Vec::new()), Ok("2025-06-13T09:00:00+0000".to_string()));
    assert_eq!(r.normalize_transaction_date("next tuesday", &Vec::new()), Ok("next tuesday".to_string()));
}

#[test]
fn dates_compare_as_instants_or_texts() {
    let r = repo();
    assert_eq!(r.compare_dates("2025-06-13T09:00:00-04:00", "2025-06-13T13:00:00Z"), 0);
    assert_eq!(r.compare_dates("2025-06-13T09:00:00-04:00", "2025-06-13T12:00:00Z"), 1);
    assert_eq!(r.compare_dates("2025-06-13T08:00:00-04:00", "2025-06-13T12:00:01Z"), -1);
    // Offsets without a colon do not read as RFC 3339, so the texts decide.
    assert_eq!(r.compare_dates("2025-06-13T09:00:00-0400", "2025-06-13T13:00:00Z"), -1);
    assert_eq!(r.compare_dates("abc", "abd"), -1);
    assert_eq!(r.compare_dates("b", "a"), 1);
}

#[test]
fn dates_select_on_either_side() {
    let r = repo();
    let dates = vec![
        "2025-06-01T00:00:00Z".to_string(),
        "2025-06-20T00:00:00Z".to_string(),
        "2025-06-10T00:00:00Z".to_string(),
    ];
    assert_eq!(r.select_by_date(&dates, "2025-06-10T00:00:00Z", true), vec![1, 2]);
    assert_eq!(r.select_by_date(&dates, "2025-06-10T00:00:00Z", false), vec![0]);
}

fn now_parts() -> (i64, u32) {
    let now = chrono::Utc::now();
    (now.timestamp(), now.timestamp_subsec_nanos())
}

#[test]
fn test_validate_transaction_date_valid() {
    let valid_date = chrono::Utc::now()
        .checked_sub_signed(chrono::Duration::days(10))
        .unwrap()
        .to_rfc3339();
    let (secs, nanos) = now_parts();
    let result = validate_transaction_date(&valid_date, secs, nanos);
    assert!(result.is_ok());
}

#[test]
fn test_validate_transaction_date_invalid_format() {
    let (secs, nanos) = now_parts();
    let result = validate_transaction_date("invalid-date-format", secs, nanos);
    assert!(result.is_err());
    assert!(result.unwrap_err().contains("Invalid date format"));
}

#[test]
fn test_validate_transaction_date_future() {
    let future_date = chrono::Utc::now()
        .checked_add_signed(chrono::Duration::days(1))
        .unwrap()
        .to_rfc3339();
    let (secs, nanos) = now_parts();
    let result = validate_transaction_date(&future_date, secs, nanos);
    assert!(result.is_err());
    assert!(result.unwrap_err().contains("cannot be in the future"));
}

#[test]
fn test_validate_transaction_date_too_old() {
    let old_date = chrono::Utc::now()
        .checked_sub_signed(chrono::Duration::days(50))
        .unwrap()
        .to_rfc3339();
    let (secs, nanos) = now_parts();
    let result = validate_transaction_date(&old_date, secs, nanos);
    assert!(result.is_err());
    assert!(result.unwrap_err().contains("more than 45 days in the past"));
}

#[test]
fn test_is_backdated_transaction() {
    let now = chrono::Utc::now().to_rfc3339();
    let (secs, nanos) = now_parts();
    let result = is_backdated_transaction(&now, secs, nanos);
    assert!(result.is_some());
    assert!(!result.unwrap());

    let backdated = chrono::Utc::now()
        .checked_sub_signed(chrono::Duration::hours(2))
        .unwrap()
        .to_rfc3339();
    let (secs, nanos) = now_parts();
    let result = is_backdated_transaction(&backdated, secs, nanos);
    assert!(result.is_some());
    assert!(result.unwrap());
}

// 2025-06-15T16:00:00Z is 1_750_003_200 seconds after the epoch.
const NOW: i64 = 1_750_003_200;

#[test]
fn plain_dates_are_read_at_noon_eastern() {
    // 2025-06-15T12:00:00-05:00 is 17:00Z, within the same local day.
    assert_eq!(validate_transaction_date("2025-06-15", NOW, 0), Ok(()));
    assert_eq!(
        validate_transaction_date("2025-06-16", NOW, 0),
        Err("Transaction date cannot be in the future".to_string())
    );
    assert_eq!(validate_transaction_date("2025-05-01", NOW, 0), Ok(()));
    assert_eq!(
        validate_transaction_date("2025-04-30", NOW, 0),
        Err("Transaction date cannot be more than 45 days in the past".to_string())
    );
}

#[test]
fn the_day_ends_at_local_midnight() {
    // 23:59:59 local time the same day is accepted; midnight is refused.
    assert_eq!(validate_transaction_date("2025-06-15T23:59:59-05:00", NOW, 0), Ok(()));
    assert!(validate_transaction_date("2025-06-16T00:00:00-05:00", NOW, 0).is_err());
    assert_eq!(validate_transaction_date("2025-06-15T23:59:59Z", NOW, 0), Ok(()));
    assert!(validate_transaction_date("2025-06-16T00:00:00Z", NOW, 0).is_err());
}

#[test]
fn unreadable_dates_are_named_in_the_message() {
    assert_eq!(
        validate_transaction_date("tomorrow", NOW, 0),
        Err("Invalid date format. Expected YYYY-MM-DD (e.g., '2025-06-19') or RFC 3339 format (e.g., '2025-01-15T14:30:00-05:00'): tomorrow".to_string())
    );
    assert_eq!(is_backdated_transaction("tomorrow", NOW, 0), None);
}

#[test]
fn backdating_starts_one_hour_before_now() {
    assert_eq!(is_backdated_transaction("2025-06-15T15:00:00Z", NOW, 0), Some(false));
    assert_eq!(is_backdated_transaction("2025-06-15T15:00:00Z", NOW, 1), Some(true));
    assert_eq!(is_backdated_transaction("2025-06-15T14:59:59Z", NOW, 0), Some(true));
    // A plain date reads as noon Eastern, 17:00Z: after 15:00Z, not backdated.
    assert_eq!(is_backdated_transaction("2025-06-15", NOW, 0), Some(false));
    assert_eq!(is_backdated_transaction("2025-06-14", NOW, 0), Some(true));
}

#[test]
fn a_parsing_timestamp_always_resolves() {
    let taken = vec!["9999-12-31T23:59:59-0500".to_string()];
    let r = repo().resolve_timestamp_conflict("9999-12-31T23:59:59-05:00", &taken);
    assert_eq!(r, Ok("+10000-01-01T00:00:00-0500".to_string()));
    assert_eq!(repo().resolve_timestamp_conflict("not a time", &taken), Err(TimestampError::Unparseable));
}
