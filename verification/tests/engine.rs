use usage_tracker::aggregator::manage_usage_logs;
use usage_tracker::resolver::resolve;
use usage_tracker::sampler::tick;
use usage_tracker::sampler::Snapshot;
use usage_tracker::sampler::TickOutcome;
use usage_tracker::store::Date;
use usage_tracker::store::Store;
use usage_tracker::store::StoreError;

fn notes_snapshot() -> Snapshot {
    Snapshot {
        executable_path: String::from("C:\\Program Files\\Notes\\notes.exe"),
        window_title: String::from("Notes - untitled"),
    }
}

fn calc_snapshot() -> Snapshot {
    Snapshot {
        executable_path: String::from("C:\\Windows\\calc.exe"),
        window_title: String::from("Calculator"),
    }
}

#[test]
fn scenario_two_ticks_then_a_second_window() {
    let mut s = Store::new();
    assert_eq!(s.create_user("alice"), Ok(1));
    let day = Date { year: 2024, month: 5, day: 20 };

    let first = tick(&mut s, "alice", Some(notes_snapshot()), day, 60);
    assert_eq!(first, TickOutcome::Recorded { application_id: 1, window_id: 1 });
    let rows = s.get_usage_log_data(day);
    assert_eq!(rows.len(), 1);
    assert_eq!(rows[0].executable_name, "notes.exe");
    assert_eq!(rows[0].window_name, "Notes - untitled");
    assert_eq!(rows[0].time_spent, 0);

    let second = tick(&mut s, "alice", Some(notes_snapshot()), day, 60);
    assert_eq!(second, TickOutcome::Recorded { application_id: 1, window_id: 1 });
    let rows = s.get_usage_log_data(day);
    assert_eq!(rows.len(), 1);
    assert_eq!(rows[0].time_spent, 60);

    let third = tick(&mut s, "alice", Some(calc_snapshot()), day, 60);
    assert_eq!(third, TickOutcome::Recorded { application_id: 2, window_id: 2 });
    let rows = s.get_usage_log_data(day);
    assert_eq!(rows.len(), 2);
    assert_eq!(rows[0].window_name, "Notes - untitled");
    assert_eq!(rows[0].time_spent, 60);
    assert_eq!(rows[1].window_name, "Calculator");
    assert_eq!(rows[1].time_spent, 0);
}

#[test]
fn snapshot_failure_skips_the_tick() {
    let mut s = Store::new();
    assert_eq!(s.create_user("alice"), Ok(1));
    let day = Date { year: 2024, month: 5, day: 20 };

    let outcome = tick(&mut s, "alice", None, day, 60);
    assert_eq!(outcome, TickOutcome::SkippedNoSnapshot);
    assert!(!s.application_exists("notes.exe"));
    assert!(s.get_usage_log_data(day).is_empty());

    assert_eq!(
        tick(&mut s, "alice", Some(notes_snapshot()), day, 60),
        TickOutcome::Recorded { application_id: 1, window_id: 1 }
    );
    let outcome = tick(&mut s, "alice", None, day, 60);
    assert_eq!(outcome, TickOutcome::SkippedNoSnapshot);
    let rows = s.get_usage_log_data(day);
    assert_eq!(rows.len(), 1);
    assert_eq!(rows[0].time_spent, 0);
}

#[test]
fn one_application_row_however_often_resolved() {
    let mut s = Store::new();
    let pair = resolve(&mut s, "notes.exe", "Notes - untitled").unwrap();
    assert_eq!(pair, (1, 1));
    let pair = resolve(&mut s, "notes.exe", "Notes - untitled").unwrap();
    assert_eq!(pair, (1, 1));
    let pair = resolve(&mut s, "notes.exe", "Second document").unwrap();
    assert_eq!(pair, (1, 2));
    let a = s.select_application_by_executable_name("notes.exe").unwrap();
    assert_eq!(a.application_id, 1);
    assert!(!s.application_exists("calc.exe"));
}

#[test]
fn one_window_row_per_title_across_executables() {
    let mut s = Store::new();
    assert_eq!(s.create_user("alice"), Ok(1));
    let day = Date { year: 2024, month: 5, day: 20 };
    let shared = Snapshot {
        executable_path: String::from("C:\\a\\first.exe"),
        window_title: String::from("Shared title"),
    };
    assert_eq!(
        tick(&mut s, "alice", Some(shared), day, 60),
        TickOutcome::Recorded { application_id: 1, window_id: 1 }
    );
    let clash = Snapshot {
        executable_path: String::from("C:\\b\\second.exe"),
        window_title: String::from("Shared title"),
    };
    let outcome = tick(&mut s, "alice", Some(clash), day, 60);
    assert_eq!(
        outcome,
        TickOutcome::ResolveFailed { error: StoreError::UniqueViolation }
    );
    // the second executable was interned, the title kept its single row,
    // and no usage was written for the failed tick
    assert!(s.application_exists("second.exe"));
    let w = s.select_application_window_by_window_name("Shared title").unwrap();
    assert_eq!(w.window_id, 1);
    assert_eq!(w.application_id, Some(1));
    let rows = s.get_usage_log_data(day);
    assert_eq!(rows.len(), 1);
    assert_eq!(rows[0].time_spent, 0);
}

#[test]
fn consecutive_ticks_accumulate_interval_each() {
    let mut s = Store::new();
    assert_eq!(s.create_user("alice"), Ok(1));
    let day = Date { year: 2024, month: 5, day: 20 };
    for _ in 0..4 {
        assert_eq!(
            tick(&mut s, "alice", Some(notes_snapshot()), day, 60),
            TickOutcome::Recorded { application_id: 1, window_id: 1 }
        );
    }
    let rows = s.get_usage_log_data(day);
    assert_eq!(rows.len(), 1);
    assert_eq!(rows[0].time_spent, 180);
}

#[test]
fn day_rollover_starts_a_fresh_row() {
    let mut s = Store::new();
    assert_eq!(s.create_user("alice"), Ok(1));
    let monday = Date { year: 2024, month: 5, day: 20 };
    let tuesday = Date { year: 2024, month: 5, day: 21 };
    tick(&mut s, "alice", Some(notes_snapshot()), monday, 60);
    tick(&mut s, "alice", Some(notes_snapshot()), monday, 60);
    let outcome = tick(&mut s, "alice", Some(notes_snapshot()), tuesday, 60);
    assert_eq!(outcome, TickOutcome::Recorded { application_id: 1, window_id: 1 });
    let monday_rows = s.get_usage_log_data(monday);
    assert_eq!(monday_rows.len(), 1);
    assert_eq!(monday_rows[0].time_spent, 60);
    let tuesday_rows = s.get_usage_log_data(tuesday);
    assert_eq!(tuesday_rows.len(), 1);
    assert_eq!(tuesday_rows[0].time_spent, 0);
}

#[test]
fn unknown_user_fails_the_recording_step() {
    let mut s = Store::new();
    let day = Date { year: 2024, month: 5, day: 20 };
    let outcome = tick(&mut s, "nobody", Some(notes_snapshot()), day, 60);
    assert_eq!(
        outcome,
        TickOutcome::RecordFailed { error: StoreError::RowNotFound }
    );
    // identities were interned, but no usage row was written
    assert!(s.application_exists("notes.exe"));
    assert!(s.get_usage_log_data(day).is_empty());
}

#[test]
fn recording_without_a_window_does_nothing() {
    let mut s = Store::new();
    assert_eq!(s.create_user("alice"), Ok(1));
    let day = Date { year: 2024, month: 5, day: 20 };
    assert_eq!(manage_usage_logs(&mut s, "alice", None, day, 60), Ok(()));
    assert!(s.get_usage_log_data(day).is_empty());
    assert_eq!(
        manage_usage_logs(&mut s, "nobody", None, day, 60),
        Err(StoreError::RowNotFound)
    );
}

#[test]
fn counter_overflow_fails_the_recording_step() {
    let mut s = Store::new();
    assert_eq!(s.create_user("alice"), Ok(1));
    let day = Date { year: 2024, month: 5, day: 20 };
    // a usage row for the window the next resolve will hand out
    assert_eq!(s.create_usage_logs(1, 1, day), Ok(1));
    assert_eq!(s.update_usage_logs_time(1, i64::MAX), Ok(1));
    let outcome = tick(&mut s, "alice", Some(notes_snapshot()), day, 60);
    assert_eq!(
        outcome,
        TickOutcome::RecordFailed { error: StoreError::IntegerOverflow }
    );
    assert_eq!(
        s.select_usage_log_by_window_id(1, day).unwrap().time_spent,
        i64::MAX
    );
}

#[test]
fn empty_names_pass_through() {
    let mut s = Store::new();
    assert_eq!(s.create_user("alice"), Ok(1));
    let day = Date { year: 2024, month: 5, day: 20 };
    let snap = Snapshot {
        executable_path: String::new(),
        window_title: String::new(),
    };
    assert_eq!(
        tick(&mut s, "alice", Some(snap), day, 60),
        TickOutcome::Recorded { application_id: 1, window_id: 1 }
    );
    assert!(s.application_exists(""));
    let rows = s.get_usage_log_data(day);
    assert_eq!(rows.len(), 1);
    assert_eq!(rows[0].executable_name, "");
    assert_eq!(rows[0].window_name, "");
    assert_eq!(rows[0].time_spent, 0);
}
