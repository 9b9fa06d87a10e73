use logsweep::{
    advance, clear_log, ConfigDetail, DirEntry, ScanError, SweepAction, SweepEvent, SweepReport,
    SweepState, Timestamp,
};

const DAY: i64 = 86_400;
const NOW: i64 = 1_700_000_000;

fn file(path: &str, days_old: i64) -> DirEntry {
    DirEntry {
        path: path.to_string(),
        is_dir: false,
        modified: Some(Timestamp::new(NOW - days_old * DAY, 0)),
    }
}

fn listed(entries: Vec<DirEntry>) -> SweepEvent {
    SweepEvent::Listed { listing: Some(entries), now: Timestamp::new(NOW, 0) }
}

fn answered(line: &str) -> SweepEvent {
    SweepEvent::Answered { line: line.to_string() }
}

fn rule(pattern: &str, days: u64) -> ConfigDetail {
    ConfigDetail::new("/var/log/app".to_string(), pattern.to_string(), days)
}

fn three_old_logs() -> Vec<DirEntry> {
    vec![
        file("/var/log/app/a.log", 40),
        file("/var/log/app/keep.txt", 40),
        file("/var/log/app/b.log", 50),
        file("/var/log/app/young.log", 1),
        file("/var/log/app/c.log", 60),
    ]
}

fn asked_about(action: &SweepAction) -> Vec<String> {
    match action {
        SweepAction::Ask { lines } => lines.iter().map(|line| line.path.clone()).collect(),
        other => panic!("expected a question, got {:?}", other),
    }
}

fn removal(action: &SweepAction) -> String {
    match action {
        SweepAction::Remove { path } => path.clone(),
        other => panic!("expected a removal, got {:?}", other),
    }
}

#[test]
fn a_sweep_starts_by_listing_the_directory() {
    let (state, action) = clear_log(rule(r"\.log$", 30));
    assert!(matches!(state, SweepState::Listing { .. }));
    match action {
        SweepAction::ListDirectory { path } => assert_eq!(path, "/var/log/app"),
        other => panic!("expected a listing, got {:?}", other),
    }
}

#[test]
fn no_matches_ends_without_a_question() {
    let (state, _) = clear_log(rule(r"\.log$", 30));
    let entries = vec![file("/var/log/app/app.log", 10), file("/var/log/app/notes.txt", 100)];
    let (state, action) = advance(state, listed(entries));
    assert!(matches!(state, SweepState::Finished));
    assert!(matches!(action, SweepAction::Finish { report: SweepReport::NoMatches }));
}

#[test]
fn an_empty_directory_ends_without_a_question() {
    let (state, _) = clear_log(rule(".*", 0));
    let (state, action) = advance(state, listed(Vec::new()));
    assert!(matches!(state, SweepState::Finished));
    assert!(matches!(action, SweepAction::Finish { report: SweepReport::NoMatches }));
}

#[test]
fn a_decline_cancels_and_removes_nothing() {
    let (state, _) = clear_log(rule(r"\.log$", 30));
    let (state, action) = advance(state, listed(three_old_logs()));
    assert!(matches!(state, SweepState::Confirming { .. }));
    assert_eq!(
        asked_about(&action),
        vec![
            "/var/log/app/a.log".to_string(),
            "/var/log/app/b.log".to_string(),
            "/var/log/app/c.log".to_string()
        ]
    );
    let (state, action) = advance(state, answered("n"));
    assert!(matches!(state, SweepState::Finished));
    assert!(matches!(action, SweepAction::Finish { report: SweepReport::Cancelled }));
}

#[test]
fn only_the_exact_answer_starts_removals() {
    for line in ["", "Y", "yes", "n", "y y", "\n"] {
        let (state, _) = clear_log(rule(r"\.log$", 30));
        let (state, _) = advance(state, listed(three_old_logs()));
        let (state, action) = advance(state, answered(line));
        assert!(matches!(state, SweepState::Finished));
        assert!(matches!(action, SweepAction::Finish { report: SweepReport::Cancelled }));
    }
    for line in ["y", "y\n", " y "] {
        let (state, _) = clear_log(rule(r"\.log$", 30));
        let (state, _) = advance(state, listed(three_old_logs()));
        let (state, action) = advance(state, answered(line));
        assert!(matches!(state, SweepState::Deleting { .. }));
        assert_eq!(removal(&action), "/var/log/app/a.log");
    }
}

#[test]
fn consent_removes_every_candidate_in_order() {
    let (state, _) = clear_log(rule(r"\.log$", 30));
    let (state, _) = advance(state, listed(three_old_logs()));
    let (state, action) = advance(state, answered("y\n"));
    assert_eq!(removal(&action), "/var/log/app/a.log");
    let (state, action) = advance(state, SweepEvent::Removed { result: Ok(()) });
    assert_eq!(removal(&action), "/var/log/app/b.log");
    let (state, action) = advance(state, SweepEvent::Removed { result: Ok(()) });
    assert_eq!(removal(&action), "/var/log/app/c.log");
    let (state, action) = advance(state, SweepEvent::Removed { result: Ok(()) });
    assert!(matches!(state, SweepState::Finished));
    match action {
        SweepAction::Finish { report: SweepReport::Deleted(outcomes) } => {
            assert_eq!(outcomes.len(), 3);
            assert_eq!(outcomes[0].path, "/var/log/app/a.log");
            assert_eq!(outcomes[1].path, "/var/log/app/b.log");
            assert_eq!(outcomes[2].path, "/var/log/app/c.log");
            assert!(outcomes.iter().all(|outcome| outcome.result.is_ok()));
        }
        other => panic!("expected the report of a deletion, got {:?}", other),
    }
}

#[test]
fn a_failed_removal_is_logged_and_the_rest_goes_on() {
    let (state, _) = clear_log(rule(r"\.log$", 30));
    let (state, _) = advance(state, listed(three_old_logs()));
    let (state, _) = advance(state, answered("y"));
    let denied = SweepEvent::Removed { result: Err("permission denied".to_string()) };
    let (state, action) = advance(state, denied);
    assert!(matches!(state, SweepState::Deleting { .. }));
    assert_eq!(removal(&action), "/var/log/app/b.log");
    let (state, action) = advance(state, SweepEvent::Removed { result: Ok(()) });
    assert_eq!(removal(&action), "/var/log/app/c.log");
    let gone = SweepEvent::Removed { result: Err("no such file".to_string()) };
    let (_, action) = advance(state, gone);
    match action {
        SweepAction::Finish { report: SweepReport::Deleted(outcomes) } => {
            assert_eq!(outcomes.len(), 3);
            assert_eq!(outcomes[0].path, "/var/log/app/a.log");
            assert_eq!(outcomes[0].result, Err("permission denied".to_string()));
            assert_eq!(outcomes[1].path, "/var/log/app/b.log");
            assert_eq!(outcomes[1].result, Ok(()));
            assert_eq!(outcomes[2].path, "/var/log/app/c.log");
            assert_eq!(outcomes[2].result, Err("no such file".to_string()));
        }
        other => panic!("expected the report of a deletion, got {:?}", other),
    }
}

#[test]
fn a_single_candidate_is_removed_and_reported() {
    let (state, _) = clear_log(rule(r"\.log$", 30));
    let (state, action) = advance(state, listed(vec![file("/var/log/app/only.log", 31)]));
    assert_eq!(asked_about(&action), vec!["/var/log/app/only.log".to_string()]);
    let (state, action) = advance(state, answered("y"));
    assert_eq!(removal(&action), "/var/log/app/only.log");
    let (state, action) = advance(state, SweepEvent::Removed { result: Ok(()) });
    assert!(matches!(state, SweepState::Finished));
    match action {
        SweepAction::Finish { report: SweepReport::Deleted(outcomes) } => {
            assert_eq!(outcomes.len(), 1);
            assert_eq!(outcomes[0].path, "/var/log/app/only.log");
            assert_eq!(outcomes[0].result, Ok(()));
        }
        other => panic!("expected the report of a deletion, got {:?}", other),
    }
}

#[test]
fn the_question_shows_the_day_of_modification() {
    let (state, _) = clear_log(rule(r"\.log$", 0));
    let entry = DirEntry {
        path: "/var/log/app/a.log".to_string(),
        is_dir: false,
        modified: Some(Timestamp::new(1_431_705_600, 0)),
    };
    let (_, action) = advance(state, listed(vec![entry]));
    match action {
        SweepAction::Ask { lines } => {
            assert_eq!(lines.len(), 1);
            assert_eq!(lines[0].path, "/var/log/app/a.log");
            assert_eq!(lines[0].modified_on.as_deref(), Some("2015-05-16"));
        }
        other => panic!("expected a question, got {:?}", other),
    }
}

#[test]
fn a_missing_directory_fails_the_sweep() {
    let (state, _) = clear_log(rule(r"\.log$", 30));
    let event = SweepEvent::Listed { listing: None, now: Timestamp::new(NOW, 0) };
    let (state, action) = advance(state, event);
    assert!(matches!(state, SweepState::Finished));
    assert!(matches!(
        action,
        SweepAction::Finish { report: SweepReport::Failed(ScanError::DirectoryNotFound) }
    ));
}

#[test]
fn an_invalid_pattern_fails_the_sweep() {
    let (state, _) = clear_log(rule(r"*.log", 30));
    let (state, action) = advance(state, listed(three_old_logs()));
    assert!(matches!(state, SweepState::Finished));
    assert!(matches!(
        action,
        SweepAction::Finish { report: SweepReport::Failed(ScanError::InvalidPattern) }
    ));
}

#[test]
fn an_event_that_was_not_asked_for_interrupts() {
    let (state, _) = clear_log(rule(r"\.log$", 30));
    let (state, action) = advance(state, answered("y"));
    assert!(matches!(state, SweepState::Finished));
    assert!(matches!(action, SweepAction::Finish { report: SweepReport::Interrupted }));

    let (state, _) = clear_log(rule(r"\.log$", 30));
    let (state, _) = advance(state, listed(three_old_logs()));
    let (state, action) = advance(state, SweepEvent::Removed { result: Ok(()) });
    assert!(matches!(state, SweepState::Finished));
    assert!(matches!(action, SweepAction::Finish { report: SweepReport::Interrupted }));

    let (state, action) = advance(state, answered("y"));
    assert!(matches!(state, SweepState::Finished));
    assert!(matches!(action, SweepAction::Finish { report: SweepReport::Interrupted }));
}

#[test]
fn a_state_with_nothing_left_to_remove_interrupts() {
    let state = SweepState::Deleting { candidates: Vec::new(), outcomes: Vec::new() };
    let (state, action) = advance(state, SweepEvent::Removed { result: Ok(()) });
    assert!(matches!(state, SweepState::Finished));
    assert!(matches!(action, SweepAction::Finish { report: SweepReport::Interrupted }));

    let state = SweepState::Confirming { candidates: Vec::new() };
    let (state, action) = advance(state, answered("y"));
    assert!(matches!(state, SweepState::Finished));
    assert!(matches!(action, SweepAction::Finish { report: SweepReport::Cancelled }));
}

#[test]
fn the_exit_status_is_zero_when_every_sweep_ran_to_its_end() {
    assert_eq!(logsweep::exit_code(&Vec::new()), 0);
    let reports = vec![
        SweepReport::NoMatches,
        SweepReport::Cancelled,
        SweepReport::Deleted(Vec::new()),
        SweepReport::Deleted(vec![logsweep::DeleteOutcome {
            path: "/var/log/app/a.log".to_string(),
            result: Err("permission denied".to_string()),
        }]),
    ];
    assert_eq!(logsweep::exit_code(&reports), 0);
}

#[test]
fn the_exit_status_is_one_when_a_sweep_failed() {
    let reports = vec![SweepReport::NoMatches, SweepReport::Failed(ScanError::DirectoryNotFound)];
    assert_eq!(logsweep::exit_code(&reports), 1);
    let reports = vec![SweepReport::Failed(ScanError::InvalidPattern), SweepReport::Cancelled];
    assert_eq!(logsweep::exit_code(&reports), 1);
    let reports = vec![SweepReport::Interrupted];
    assert_eq!(logsweep::exit_code(&reports), 1);
}
