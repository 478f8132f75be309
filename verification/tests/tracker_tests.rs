use dirsync::tracker::{ChangeTracker, Dirtiness};

#[test]
fn unseen_path_is_dirty_without_reference() {
    let tracker = ChangeTracker::new();
    assert!(tracker.get("a.py").is_none());
    match tracker.check("a.py", 5) {
        Dirtiness::Dirty { existing } => assert!(existing.is_none()),
        Dirtiness::Clean => panic!("a path never seen must be dirty"),
    }
}

#[test]
fn unchanged_modification_time_is_clean() {
    let mut tracker = ChangeTracker::new();
    tracker.record_success("a.py", 5, "ref-1".to_string());
    assert!(matches!(tracker.check("a.py", 5), Dirtiness::Clean));
}

#[test]
fn older_modification_time_is_clean() {
    let mut tracker = ChangeTracker::new();
    tracker.record_success("a.py", 5, "ref-1".to_string());
    assert!(matches!(tracker.check("a.py", 4), Dirtiness::Clean));
}

#[test]
fn newer_modification_time_is_dirty_with_reference() {
    let mut tracker = ChangeTracker::new();
    tracker.record_success("a.py", 5, "ref-1".to_string());
    match tracker.check("a.py", 6) {
        Dirtiness::Dirty { existing } => assert_eq!(existing, Some("ref-1".to_string())),
        Dirtiness::Clean => panic!("a newer modification time must be dirty"),
    }
}

#[test]
fn remote_reference_is_never_replaced() {
    let mut tracker = ChangeTracker::new();
    tracker.record_success("a.py", 5, "ref-1".to_string());
    tracker.record_success("a.py", 9, "ref-2".to_string());
    let record = tracker.get("a.py").expect("the path is tracked");
    assert_eq!(record.remote_ref, Some("ref-1".to_string()));
    assert_eq!(record.last_synced_at, 9);
}

#[test]
fn paths_are_tracked_independently() {
    let mut tracker = ChangeTracker::new();
    tracker.record_success("a.py", 5, "ref-a".to_string());
    tracker.record_success("b.py", 7, "ref-b".to_string());
    assert_eq!(
        tracker.get("a.py").unwrap().remote_ref,
        Some("ref-a".to_string())
    );
    assert_eq!(
        tracker.get("b.py").unwrap().remote_ref,
        Some("ref-b".to_string())
    );
    assert!(tracker.get("c.py").is_none());
}
