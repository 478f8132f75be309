//! Scheduler policy: after every cycle the loop returns to an idle wait,
//! and the length of that wait distinguishes a systemic failure (retry
//! soon) from an ordinary completed cycle (check again later).

use vstd::prelude::*;

use crate::orchestrator::CycleSummary;

verus! {

/// Seconds the loop idles after an ordinary completed cycle.
pub const LONG_INTERVAL_SECS: u64 = 60;

/// Seconds the loop idles after a cycle-level failure.
pub const SHORT_INTERVAL_SECS: u64 = 10;

/// Cycle-level verdict handed to the scheduler once a cycle has resolved.
#[derive(Clone, Copy, Debug, PartialEq, Eq, Structural)]
pub enum CycleStatus {
    /// The cycle ran to completion; per-file failures, if any, stayed in
    /// the minority.
    Completed,
    /// The cycle failed as a whole: the scan aborted, the credential was
    /// unusable, or a majority of the attempted files failed.
    Failed,
}

/// How long the loop must idle before the next cycle: the short interval
/// after a cycle-level failure, the long interval otherwise.
pub open spec fn backoff_secs_spec(status: CycleStatus) -> u64 {
    match status {
        CycleStatus::Completed => LONG_INTERVAL_SECS,
        CycleStatus::Failed => SHORT_INTERVAL_SECS,
    }
}

/// Picks the idle duration for the next cycle from the last cycle's verdict.
pub fn backoff_secs(status: CycleStatus) -> (secs: u64)
    ensures
        secs == backoff_secs_spec(status),
{
    match status {
        CycleStatus::Completed => LONG_INTERVAL_SECS,
        CycleStatus::Failed => SHORT_INTERVAL_SECS,
    }
}

/// How a finished cycle is judged: it failed when its scan did not finish,
/// or when a strict majority of the attempted files failed; it completed
/// otherwise, whatever minority of per-file errors it carried.
pub open spec fn cycle_status_spec(scan_ok: bool, summary: CycleSummary) -> CycleStatus {
    if !scan_ok || 2 * (summary.failed as int) > summary.attempted as int {
        CycleStatus::Failed
    } else {
        CycleStatus::Completed
    }
}

/// Classifies a finished cycle for the scheduler.
pub fn cycle_status(scan_ok: bool, summary: &CycleSummary) -> (status: CycleStatus)
    ensures
        status == cycle_status_spec(scan_ok, *summary),
{
    if !scan_ok || summary.failed > summary.attempted / 2 {
        CycleStatus::Failed
    } else {
        CycleStatus::Completed
    }
}

} // verus!
