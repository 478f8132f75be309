use dirsync::orchestrator::CycleSummary;
use dirsync::scheduler::{
    backoff_secs, cycle_status, CycleStatus, LONG_INTERVAL_SECS, SHORT_INTERVAL_SECS,
};

fn summary(attempted: usize, synced: usize, failed: usize) -> CycleSummary {
    CycleSummary { attempted, synced, failed }
}

#[test]
fn scan_failure_backs_off_short() {
    let status = cycle_status(false, &summary(0, 0, 0));
    assert_eq!(status, CycleStatus::Failed);
    assert_eq!(backoff_secs(status), SHORT_INTERVAL_SECS);
    assert_eq!(backoff_secs(status), 10);
}

#[test]
fn completed_cycle_with_some_failures_backs_off_long() {
    let status = cycle_status(true, &summary(3, 2, 1));
    assert_eq!(status, CycleStatus::Completed);
    assert_eq!(backoff_secs(status), LONG_INTERVAL_SECS);
    assert_eq!(backoff_secs(status), 60);
}

#[test]
fn quiet_cycle_backs_off_long() {
    let status = cycle_status(true, &summary(0, 0, 0));
    assert_eq!(status, CycleStatus::Completed);
    assert_eq!(backoff_secs(status), 60);
}

#[test]
fn majority_of_failures_fails_the_cycle() {
    assert_eq!(cycle_status(true, &summary(3, 1, 2)), CycleStatus::Failed);
    assert_eq!(cycle_status(true, &summary(4, 0, 4)), CycleStatus::Failed);
    assert_eq!(cycle_status(true, &summary(4, 2, 2)), CycleStatus::Completed);
    assert_eq!(cycle_status(true, &summary(1, 1, 0)), CycleStatus::Completed);
}
