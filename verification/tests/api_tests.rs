use allowance_tracker::api::{
    file_write_failed_response, file_written_response, month_end_timestamp, sanitize_path,
    sanitize_path_with_home, CalendarMonthQuery, ListTransactionsQueryParams, LogLevel, LogRequest,
};

fn log(level: &str, message: &str, component: Option<&str>) -> LogRequest {
    LogRequest {
        level: level.to_string(),
        message: message.to_string(),
        component: component.map(|c| c.to_string()),
    }
}

#[test]
fn log_levels_and_lines() {
    assert_eq!(log("DEBUG", "m", None).level(), LogLevel::Debug);
    assert_eq!(log("warn", "m", None).level(), LogLevel::Warn);
    assert_eq!(log("Error", "m", None).level(), LogLevel::Error);
    assert_eq!(log("info", "m", None).level(), LogLevel::Info);
    assert_eq!(log("verbose", "m", None).level(), LogLevel::Info);
    assert_eq!(log("info", "Loaded", None).line(), "[frontend] Loaded");
    assert_eq!(log("info", "Saved", Some("goals")).line(), "[goals] Saved");
    assert!(log("info", "x", None).response().success);
}

#[test]
fn month_end_timestamps() {
    assert_eq!(month_end_timestamp(2, 2024), "2024-02-29T23:59:59Z");
    assert_eq!(month_end_timestamp(6, 2025), "2025-06-30T23:59:59Z");
    assert_eq!(month_end_timestamp(12, 999), "0999-12-31T23:59:59Z");
    let q = CalendarMonthQuery { month: 6, year: 2025 };
    assert_eq!(month_end_timestamp(q.month, q.year), "2025-06-30T23:59:59Z");
}

#[test]
fn query_params_become_the_domain_query() {
    let params = ListTransactionsQueryParams {
        after: Some("tx1".to_string()),
        limit: Some(5),
        start_date: None,
        end_date: Some("2025-06-30T23:59:59Z".to_string()),
    };
    let q = params.to_query();
    assert_eq!(q.after, Some("tx1".to_string()));
    assert_eq!(q.limit, Some(5));
    assert_eq!(q.start_date, None);
    assert_eq!(q.end_date, Some("2025-06-30T23:59:59Z".to_string()));
}

#[test]
fn file_write_responses() {
    let ok = file_written_response("/tmp/out.csv");
    assert!(ok.success);
    assert_eq!(ok.message, "File written successfully to: /tmp/out.csv");
    let bad = file_write_failed_response("permission denied");
    assert!(!bad.success);
    assert_eq!(bad.message, "Failed to write file: permission denied");
}

#[test]
fn sanitize_paths() {
    let home = Some("/home/kid");
    assert_eq!(sanitize_path_with_home("  \"/tmp/My Files/\"  ", home), "/tmp/My Files");
    assert_eq!(sanitize_path_with_home("'/tmp/x'", home), "/tmp/x");
    assert_eq!(sanitize_path_with_home("/tmp/My\\ Files//", home), "/tmp/My Files");
    assert_eq!(sanitize_path_with_home("~", home), "/home/kid");
    assert_eq!(sanitize_path_with_home("~/exports/", home), "/home/kid/exports");
    assert_eq!(sanitize_path_with_home("~other", home), "~other");
    assert_eq!(sanitize_path_with_home("~/exports", None), "~/exports");
    assert_eq!(sanitize_path_with_home("\"\"", home), "");
    assert_eq!(sanitize_path("/plain/path/"), "/plain/path");
}
