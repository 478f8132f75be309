use dirsync::orchestrator::{apply_outcomes, plan_cycle, ScanEntry, SyncOutcome};
use dirsync::protocol::RemoteError;
use dirsync::tracker::ChangeTracker;

fn entry(path: &str, modified: u64) -> ScanEntry {
    ScanEntry { path: path.to_string(), modified }
}

#[test]
fn every_unseen_file_is_planned() {
    let tracker = ChangeTracker::new();
    let scanned = vec![entry("a.py", 5), entry("b.py", 6)];
    let tasks = plan_cycle(&tracker, &scanned);
    assert_eq!(tasks.len(), 2);
    assert_eq!(tasks[0].path, "a.py");
    assert_eq!(tasks[0].modified, 5);
    assert_eq!(tasks[0].existing_ref, None);
    assert_eq!(tasks[1].path, "b.py");
    assert_eq!(tasks[1].existing_ref, None);
}

#[test]
fn unchanged_file_is_not_planned() {
    let mut tracker = ChangeTracker::new();
    tracker.record_success("a.py", 5, "ref-a".to_string());
    let scanned = vec![entry("a.py", 5), entry("b.py", 7)];
    let tasks = plan_cycle(&tracker, &scanned);
    assert_eq!(tasks.len(), 1);
    assert_eq!(tasks[0].path, "b.py");
}

#[test]
fn modified_file_is_planned_with_its_reference() {
    let mut tracker = ChangeTracker::new();
    tracker.record_success("a.py", 5, "ref-a".to_string());
    let scanned = vec![entry("a.py", 9)];
    let tasks = plan_cycle(&tracker, &scanned);
    assert_eq!(tasks.len(), 1);
    assert_eq!(tasks[0].existing_ref, Some("ref-a".to_string()));
    assert_eq!(tasks[0].modified, 9);
}

#[test]
fn one_failure_does_not_block_the_others() {
    let mut tracker = ChangeTracker::new();
    let outcomes = vec![
        SyncOutcome { path: "a.py".to_string(), modified: 5, result: Ok("ref-a".to_string()) },
        SyncOutcome { path: "b.py".to_string(), modified: 6, result: Err(RemoteError::Transport) },
        SyncOutcome { path: "c.py".to_string(), modified: 7, result: Ok("ref-c".to_string()) },
    ];
    let summary = apply_outcomes(&mut tracker, &outcomes);
    assert_eq!(summary.attempted, 3);
    assert_eq!(summary.synced, 2);
    assert_eq!(summary.failed, 1);
    let a = tracker.get("a.py").expect("the successful file is tracked");
    assert_eq!(a.remote_ref, Some("ref-a".to_string()));
    assert_eq!(a.last_synced_at, 5);
    assert!(tracker.get("b.py").is_none());
    let c = tracker.get("c.py").expect("the successful file is tracked");
    assert_eq!(c.remote_ref, Some("ref-c".to_string()));
    assert_eq!(c.last_synced_at, 7);
}

#[test]
fn failed_file_keeps_its_old_record() {
    let mut tracker = ChangeTracker::new();
    tracker.record_success("a.py", 5, "ref-a".to_string());
    let outcomes = vec![SyncOutcome {
        path: "a.py".to_string(),
        modified: 8,
        result: Err(RemoteError::Status { status: 500 }),
    }];
    let summary = apply_outcomes(&mut tracker, &outcomes);
    assert_eq!(summary.failed, 1);
    let a = tracker.get("a.py").unwrap();
    assert_eq!(a.last_synced_at, 5);
    assert_eq!(a.remote_ref, Some("ref-a".to_string()));
}

#[test]
fn synced_cycle_issues_no_further_work() {
    let mut tracker = ChangeTracker::new();
    let scanned = vec![entry("a.py", 5)];
    let tasks = plan_cycle(&tracker, &scanned);
    assert_eq!(tasks.len(), 1);
    let outcomes = vec![SyncOutcome {
        path: "a.py".to_string(),
        modified: 5,
        result: Ok("ref-a".to_string()),
    }];
    apply_outcomes(&mut tracker, &outcomes);
    let again = plan_cycle(&tracker, &scanned);
    assert_eq!(again.len(), 0);
}

#[test]
fn repeated_syncs_reuse_the_first_reference() {
    let mut tracker = ChangeTracker::new();
    for round in 1..=4u64 {
        let scanned = vec![entry("a.py", 10 * round)];
        let tasks = plan_cycle(&tracker, &scanned);
        assert_eq!(tasks.len(), 1);
        if round == 1 {
            assert_eq!(tasks[0].existing_ref, None);
        } else {
            assert_eq!(tasks[0].existing_ref, Some("ref-1".to_string()));
        }
        let outcomes = vec![SyncOutcome {
            path: "a.py".to_string(),
            modified: 10 * round,
            result: Ok(format!("ref-{round}")),
        }];
        apply_outcomes(&mut tracker, &outcomes);
    }
    assert_eq!(
        tracker.get("a.py").unwrap().remote_ref,
        Some("ref-1".to_string())
    );
}
