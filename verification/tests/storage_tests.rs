use allowance_tracker::storage::{
    join_paths, keeps_entry, relocated_message, relocation_plan, replace_text, reverted_message,
    not_relocated_message, unescape_shell_path, choose_child_directory, key_file_paths,
    redirect_commit_message, CsvConnection, copied_files_report, CsvParentalControlRepository, CsvTransactionRepository, GitManager, RelocationPlan,
};

#[test]
fn paths_join_like_std() {
    assert_eq!(join_paths("/data", "emma"), "/data/emma");
    assert_eq!(join_paths("/data/", "emma"), "/data/emma");
    assert_eq!(join_paths("", "emma"), "emma");
    assert_eq!(join_paths("/data", "/abs"), "/abs");
}

#[test]
fn connection_paths() {
    let conn = CsvConnection::new("/tmp/allowance");
    assert_eq!(conn.base_directory(), "/tmp/allowance");
    assert_eq!(conn.get_current_data_directory(), "/tmp/allowance");
    assert_eq!(conn.default_child_directory("emma"), "/tmp/allowance/emma");
    assert_eq!(conn.redirect_file_path("emma"), "/tmp/allowance/emma/.allowance_redirect");
    assert_eq!(conn.get_child_directory("emma", None, true), "/tmp/allowance/emma");
    assert_eq!(conn.get_transactions_file_path("/tmp/allowance/emma"), "/tmp/allowance/emma/transactions.csv");
    let repo = CsvParentalControlRepository::new(conn.clone());
    assert_eq!(
        repo.get_parental_control_file_path("/x/emma"),
        "/x/emma/parental_control_attempts.csv"
    );
    let tx_repo = CsvTransactionRepository::new(conn);
    assert_eq!(tx_repo.connection().base_directory(), "/tmp/allowance");
}

#[test]
fn redirect_is_followed_only_when_the_target_exists() {
    let conn = CsvConnection::new("/data");
    assert_eq!(conn.get_child_directory("emma", Some("  /elsewhere/emma\n"), true), "/elsewhere/emma");
    assert_eq!(conn.get_child_directory("emma", Some("/elsewhere/emma"), false), "/data/emma");
    assert_eq!(choose_child_directory("/data/emma", " /x \n", true), "/x");
    assert_eq!(choose_child_directory("/data/emma", " /x \n", false), "/data/emma");
}

#[test]
fn verify_child_data_reports_first_missing_file() {
    let conn = CsvConnection::new("/data");
    assert_eq!(
        conn.child_data_files("/data/emma"),
        vec![
            "/data/emma/child.yaml".to_string(),
            "/data/emma/transactions.csv".to_string(),
            "/data/emma/goals.csv".to_string()
        ]
    );
    assert_eq!(
        conn.verify_child_data_exists("/data/emma", false, true, true),
        Err("Expected file 'child.yaml' does not exist at path: /data/emma/child.yaml".to_string())
    );
    assert_eq!(conn.verify_child_data_exists("/data/emma", true, true, true), Ok(()));
}

#[test]
fn test_path_unescaping_functionality() {
    assert_eq!(unescape_shell_path("/Users/me/My\\ Documents"), "/Users/me/My Documents");
    assert_eq!(unescape_shell_path("\\~/data"), "~/data");
    assert_eq!(unescape_shell_path("it\\'s \\\"here\\\""), "it's \"here\"");
    assert_eq!(unescape_shell_path("a\\\\b"), "a\\b");
    assert_eq!(unescape_shell_path("plain"), "plain");
}

#[test]
fn replace_is_left_to_right_and_non_overlapping() {
    assert_eq!(replace_text("aaaa", "aa", "b"), "bb");
    assert_eq!(replace_text("aaa", "aa", "b"), "ba");
    assert_eq!(replace_text("x,y,z", ",", ""), "xyz");
}

#[test]
fn relocation_decisions() {
    match relocation_plan("Emma", "/a/b", "/a/b", true, None) {
        RelocationPlan::AlreadyThere(m) => {
            assert_eq!(m, "Child 'Emma' data directory is already at the specified location")
        }
        _ => panic!("expected no move"),
    }
    match relocation_plan("Emma", "/a/b/", "/a/b", true, None) {
        RelocationPlan::AlreadyThere(_) => {}
        _ => panic!("a trailing separator names the same path"),
    }
    match relocation_plan("Emma", "/new", "/old", false, None) {
        RelocationPlan::Refused(m) => assert_eq!(m, "Child 'Emma' directory does not exist: /old"),
        _ => panic!("expected refusal"),
    }
    match relocation_plan("Emma", "/new", "/old", true, Some(2)) {
        RelocationPlan::Refused(m) => assert_eq!(m, "Target directory is not empty: /new"),
        _ => panic!("expected refusal"),
    }
    assert!(matches!(relocation_plan("Emma", "/new", "/old", true, Some(0)), RelocationPlan::Proceed));
    assert!(matches!(relocation_plan("Emma", "/new", "/old", true, None), RelocationPlan::Proceed));
}

#[test]
fn copy_verification_and_messages() {
    let src = tempfile::tempdir().unwrap();
    let dst = tempfile::tempdir().unwrap();
    let s = src.path().to_string_lossy().to_string();
    let d = dst.path().to_string_lossy().to_string();
    assert_eq!(key_file_paths(&s), (format!("{}/child.yaml", s), format!("{}/transactions.csv", s)));
    assert_eq!(key_file_paths(&d).1, format!("{}/transactions.csv", d));
    assert_eq!(
        redirect_commit_message("emma", false),
        "Data directory relocated for emma"
    );
    assert_eq!(
        redirect_commit_message("emma", true),
        "Data directory reverted to default for emma"
    );

    assert!(keeps_entry(".git", false));
    assert!(!keeps_entry(".allowance_redirect", false));
    assert!(keeps_entry(".allowance_redirect", true));
    assert!(!keeps_entry("child.yaml", true));
    assert_eq!(relocated_message("Emma", "/new"), "Child 'Emma' data directory successfully relocated to: /new");
    assert_eq!(
        reverted_message("Emma", "/base/emma"),
        "Child 'Emma' data directory successfully reverted to default location: /base/emma"
    );
    assert_eq!(not_relocated_message("Emma"), "Child 'Emma' data directory is already at the default location");
}

#[test]
fn git_manager_defaults_and_paths() {
    let git = GitManager::new();
    assert_eq!(git.author_name(), "Allowance Tracker");
    assert_eq!(git.author_email(), "allowance@tracker.local");
    let custom = GitManager::with_author("Mom".to_string(), "mom@home".to_string());
    assert_eq!(custom.author_name(), "Mom");
    assert_eq!(custom.author_email(), "mom@home");
    assert_eq!(GitManager::default().author_name(), "Allowance Tracker");
    assert_eq!(git.get_git_dir("/repo"), "/repo/.git");
    assert_eq!(
        git.commit_message("transactions.csv", "Added $5.00 allowance"),
        "Update transactions.csv: Added $5.00 allowance"
    );
}

#[test]
fn test_no_op_when_same_path_with_escapes() {
    let target = unescape_shell_path("/tmp/t/my\\ kid");
    match relocation_plan("my kid", &target, "/tmp/t/my kid", true, Some(3)) {
        RelocationPlan::AlreadyThere(m) => {
            assert_eq!(m, "Child 'my kid' data directory is already at the specified location")
        }
        _ => panic!("expected no move"),
    }
}

#[test]
fn child_data_reports_the_first_missing_file() {
    let conn = CsvConnection::new("/data");
    assert_eq!(conn.verify_child_data_exists("/data/kid", true, true, true), Ok(()));
    assert_eq!(
        conn.verify_child_data_exists("/data/kid", false, false, true),
        Err("Expected file 'child.yaml' does not exist at path: /data/kid/child.yaml".to_string())
    );
    assert_eq!(
        conn.verify_child_data_exists("/data/kid", true, false, false),
        Err("Expected file 'transactions.csv' does not exist at path: /data/kid/transactions.csv".to_string())
    );
    assert_eq!(
        conn.verify_child_data_exists("/data/kid", true, true, false),
        Err("Expected file 'goals.csv' does not exist at path: /data/kid/goals.csv".to_string())
    );
}

#[test]
fn copied_files_report_names_what_did_not_arrive() {
    assert_eq!(copied_files_report(false, true, true, true, true), Ok(()));
    assert_eq!(copied_files_report(false, false, false, false, false), Ok(()));
    assert_eq!(
        copied_files_report(false, true, false, true, false),
        Err("File 'child.yaml' was not copied successfully - missing at destination".to_string())
    );
    assert_eq!(
        copied_files_report(true, false, false, true, false),
        Err("File 'transactions.csv' was not copied successfully during revert".to_string())
    );
}
