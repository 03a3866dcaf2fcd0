use allowance_tracker::transactions::{
    check_new_description, cursor_window, deletion_message, deletion_result, finish_page,
    missing_ids, page_window, position_of, range_newest_first, TransactionListQuery,
};

fn strings(v: &[&str]) -> Vec<String> {
    v.iter().map(|s| s.to_string()).collect()
}

#[test]
fn default_query_is_empty() {
    let q = TransactionListQuery::default();
    assert!(q.after.is_none() && q.limit.is_none() && q.start_date.is_none() && q.end_date.is_none());
}

#[test]
fn window_after_cursor_and_limit() {
    let ids = strings(&["e", "d", "c", "b", "a"]);
    assert_eq!(page_window(&ids, &None, None), (0, 5));
    assert_eq!(page_window(&ids, &Some("d".to_string()), None), (2, 5));
    assert_eq!(page_window(&ids, &Some("d".to_string()), Some(1)), (2, 4));
    assert_eq!(page_window(&ids, &Some("zz".to_string()), Some(2)), (0, 3));
    assert_eq!(page_window(&ids, &Some("a".to_string()), Some(2)), (5, 5));
    assert_eq!(position_of(&ids, &"c".to_string()), Some(2));
    assert_eq!(position_of(&ids, &"x".to_string()), None);
}

#[test]
fn page_is_newest_first_and_reports_more() {
    let dates = strings(&[
        "2025-06-01T09:00:00-0400",
        "2025-06-03T09:00:00-0400",
        "2025-06-02T09:00:00-0400",
        "2025-06-03T09:00:00-0400",
    ]);
    let ids = strings(&["t1", "t2", "t3", "t4"]);
    let page = finish_page(&dates, &ids, 3);
    assert_eq!(page.order, vec![1, 3, 2]);
    assert!(page.has_more);
    assert_eq!(page.next_cursor, Some("t3".to_string()));

    let all = finish_page(&dates, &ids, 10);
    assert_eq!(all.order, vec![1, 3, 2, 0]);
    assert!(!all.has_more);
    assert_eq!(all.next_cursor, None);

    let none = finish_page(&dates, &ids, 0);
    assert!(none.order.is_empty());
    assert!(none.has_more);
    assert_eq!(none.next_cursor, None);
}

#[test]
fn deletion_messages() {
    assert_eq!(deletion_message(0), "No transactions were deleted");
    assert_eq!(deletion_message(1), "1 transaction deleted successfully");
    assert_eq!(deletion_message(3), "3 transactions deleted successfully");
}

#[test]
fn deletion_reports_missing_ids_in_order() {
    let requested = strings(&["a", "b", "c", "b"]);
    let existing = strings(&["c", "a"]);
    assert_eq!(missing_ids(&requested, &existing), strings(&["b", "b"]));
    let result = deletion_result(&requested, &existing, 2);
    assert_eq!(result.deleted_count, 2);
    assert_eq!(result.not_found_ids, strings(&["b", "b"]));
    assert_eq!(result.success_message, "2 transactions deleted successfully");
}

#[test]
fn date_range_is_newest_first_with_ties_reversed() {
    let dates = strings(&["2025-06-02", "2025-06-05", "2025-06-02", "2025-06-09", "2025-05-30"]);
    let start = Some("2025-06-01".to_string());
    let end = Some("2025-06-06".to_string());
    assert_eq!(range_newest_first(&dates, &start, &end), vec![1, 2, 0]);
    assert_eq!(range_newest_first(&dates, &None, &None), vec![3, 1, 2, 0, 4]);
    assert_eq!(range_newest_first(&dates, &None, &Some("2025-06-02".to_string())), vec![2, 0, 4]);
}

#[test]
fn cursor_windows_take_the_count() {
    let ids = strings(&["e", "d", "c", "b", "a"]);
    assert_eq!(cursor_window(&ids, &None, Some(2)), (0, 2));
    assert_eq!(cursor_window(&ids, &Some("d".to_string()), Some(2)), (2, 4));
    assert_eq!(cursor_window(&ids, &Some("b".to_string()), Some(5)), (4, 5));
    assert_eq!(cursor_window(&ids, &None, None), (0, 5));
}

#[test]
fn page_size_defaults_to_twenty() {
    let mut q = TransactionListQuery::default();
    assert_eq!(q.page_size(), 20);
    assert!(!q.has_date_range());
    q.limit = Some(5);
    q.end_date = Some("2025-06-30T23:59:59Z".to_string());
    assert_eq!(q.page_size(), 5);
    assert!(q.has_date_range());
    assert!(check_new_description("Lunch").is_ok());
    assert_eq!(check_new_description(""), Err("Description must be between 1 and 256 characters".to_string()));
    assert!(check_new_description(&"x".repeat(257)).is_err());
}

#[test]
fn transaction_ids_name_their_kind() {
    assert_eq!(allowance_tracker::transactions::generate_transaction_id(true, 1234567890000), "transaction::income::1234567890000");
    assert_eq!(allowance_tracker::transactions::generate_transaction_id(false, 1234567891000), "transaction::expense::1234567891000");
    assert_eq!(allowance_tracker::child::generate_child_id(123456789), "child::123456789");
}

#[test]
fn cursor_pages_continue_where_the_last_ended() {
    let ids: Vec<String> = ["t5", "t4", "t3", "t2", "t1"].iter().map(|s| s.to_string()).collect();
    let mut seen: Vec<String> = Vec::new();
    let mut after: Option<String> = None;
    loop {
        let (start, end) = cursor_window(&ids, &after, Some(2));
        if start == end {
            break;
        }
        seen.extend(ids[start..end].iter().cloned());
        after = Some(ids[end - 1].clone());
    }
    assert_eq!(seen, ids);
}
