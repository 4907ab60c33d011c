use usage_tracker::store::Date;
use usage_tracker::store::Store;
use usage_tracker::store::StoreError;

#[test]
fn new_store_is_empty() {
    let s = Store::new();
    assert!(!s.user_exists("alice"));
    assert!(!s.application_exists("notes.exe"));
    let day = Date { year: 2024, month: 5, day: 20 };
    assert!(s.get_usage_log_data(day).is_empty());
}

#[test]
fn users_get_sequential_ids_and_unique_names() {
    let mut s = Store::new();
    assert_eq!(s.create_user("alice"), Ok(1));
    assert_eq!(s.create_user("bob"), Ok(2));
    assert_eq!(s.create_user("alice"), Err(StoreError::UniqueViolation));
    assert!(s.user_exists("alice"));
    let u = s.select_user_by_name("bob").unwrap();
    assert_eq!(u.user_id, 2);
    assert_eq!(u.user_name, "bob");
    assert_eq!(
        s.select_user_by_name("carol").unwrap_err(),
        StoreError::RowNotFound
    );
}

#[test]
fn applications_get_sequential_ids_and_unique_names() {
    let mut s = Store::new();
    assert_eq!(s.create_application("notes.exe"), Ok(1));
    assert_eq!(s.create_application("calc.exe"), Ok(2));
    assert_eq!(
        s.create_application("notes.exe"),
        Err(StoreError::UniqueViolation)
    );
    let a = s.select_application_by_executable_name("calc.exe").unwrap();
    assert_eq!(a.application_id, 2);
    assert_eq!(a.executable_name, "calc.exe");
}

#[test]
fn window_pair_check_needs_both_fields() {
    let mut s = Store::new();
    assert_eq!(s.create_application("notes.exe"), Ok(1));
    assert_eq!(s.create_application_window(Some(1), "Notes"), Ok(1));
    assert!(s.application_window_exists(Some(1), "Notes"));
    assert!(!s.application_window_exists(Some(2), "Notes"));
    assert!(!s.application_window_exists(None, "Notes"));
    assert!(!s.application_window_exists(Some(1), "Other"));
    let w = s.select_application_window_by_window_name("Notes").unwrap();
    assert_eq!(w.window_id, 1);
    assert_eq!(w.application_id, Some(1));
}

#[test]
fn window_title_is_globally_unique() {
    let mut s = Store::new();
    assert_eq!(s.create_application("notes.exe"), Ok(1));
    assert_eq!(s.create_application("calc.exe"), Ok(2));
    assert_eq!(s.create_application_window(Some(1), "Shared title"), Ok(1));
    assert_eq!(
        s.create_application_window(Some(2), "Shared title"),
        Err(StoreError::UniqueViolation)
    );
    let w = s.select_application_window_by_window_name("Shared title").unwrap();
    assert_eq!(w.window_id, 1);
    assert_eq!(w.application_id, Some(1));
}

#[test]
fn usage_log_rows_seed_at_zero_and_key_on_day() {
    let mut s = Store::new();
    let monday = Date { year: 2024, month: 5, day: 20 };
    let tuesday = Date { year: 2024, month: 5, day: 21 };
    assert_eq!(s.create_usage_logs(1, 7, monday), Ok(1));
    assert!(s.usage_logs_exists(7, monday));
    assert!(!s.usage_logs_exists(7, tuesday));
    assert!(!s.usage_logs_exists(8, monday));
    let l = s.select_usage_log_by_window_id(7, monday).unwrap();
    assert_eq!(l.log_id, 1);
    assert_eq!(l.user_id, 1);
    assert_eq!(l.window_id, 7);
    assert_eq!(l.time_spent, 0);
    assert_eq!(
        s.select_usage_log_by_window_id(7, tuesday).unwrap_err(),
        StoreError::RowNotFound
    );
}

#[test]
fn update_adds_time_and_reports_affected_rows() {
    let mut s = Store::new();
    let day = Date { year: 2024, month: 5, day: 20 };
    assert_eq!(s.create_usage_logs(1, 7, day), Ok(1));
    assert_eq!(s.update_usage_logs_time(1, 60), Ok(1));
    assert_eq!(s.update_usage_logs_time(1, 30), Ok(1));
    assert_eq!(s.select_usage_log_by_window_id(7, day).unwrap().time_spent, 90);
    assert_eq!(s.update_usage_logs_time(5, 60), Ok(0));
    assert_eq!(s.update_usage_logs_time(0, 60), Ok(0));
    assert_eq!(s.select_usage_log_by_window_id(7, day).unwrap().time_spent, 90);
}

#[test]
fn update_refuses_counter_overflow() {
    let mut s = Store::new();
    let day = Date { year: 2024, month: 5, day: 20 };
    assert_eq!(s.create_usage_logs(1, 7, day), Ok(1));
    assert_eq!(s.update_usage_logs_time(1, i64::MAX), Ok(1));
    assert_eq!(
        s.update_usage_logs_time(1, 1),
        Err(StoreError::IntegerOverflow)
    );
    assert_eq!(
        s.select_usage_log_by_window_id(7, day).unwrap().time_spent,
        i64::MAX
    );
}

#[test]
fn report_joins_logs_windows_and_applications() {
    let mut s = Store::new();
    let day = Date { year: 2024, month: 5, day: 20 };
    let other_day = Date { year: 2024, month: 5, day: 21 };
    assert_eq!(s.create_application("notes.exe"), Ok(1));
    assert_eq!(s.create_application_window(Some(1), "Notes"), Ok(1));
    assert_eq!(s.create_application_window(None, "Orphan"), Ok(2));
    assert_eq!(s.create_usage_logs(1, 1, day), Ok(1));
    assert_eq!(s.update_usage_logs_time(1, 120), Ok(1));
    assert_eq!(s.create_usage_logs(1, 2, day), Ok(2));
    assert_eq!(s.create_usage_logs(1, 9, day), Ok(3));
    assert_eq!(s.create_usage_logs(1, 1, other_day), Ok(4));
    let rows = s.get_usage_log_data(day);
    // the window without an application and the dangling window id drop out,
    // as does the other day's row
    assert_eq!(rows.len(), 1);
    assert_eq!(rows[0].log_id, 1);
    assert_eq!(rows[0].window_name, "Notes");
    assert_eq!(rows[0].executable_name, "notes.exe");
    assert_eq!(rows[0].time_spent, 120);
    assert_eq!(rows[0].date, day);
}
