//! One synchronization cycle: diff the scanned files against the tracker
//! into a plan, and fold the per-file outcomes back into the tracker.
//!
//! The surrounding process performs the plan — it reads each planned file
//! and makes the two remote calls — and reports one outcome per attempted
//! file. Files are independent: a failed file leaves every other file's
//! attempt and tracker update untouched.

use vstd::prelude::*;

use crate::protocol::{sync_result_view, RemoteError};
use crate::tracker::{
    existing_ref_spec, is_dirty_spec, record_success_spec, ChangeTracker, Dirtiness, RecordModel,
};

verus! {

/// Mathematical model of one scanned file.
#[verifier::ext_equal]
pub struct EntryModel {
    pub path: Seq<char>,
    pub modified: u64,
}

/// One scanned candidate file: its path and current modification time.
#[derive(Clone, Debug)]
pub struct ScanEntry {
    pub path: String,
    pub modified: u64,
}

impl View for ScanEntry {
    type V = EntryModel;

    open spec fn view(&self) -> EntryModel {
        EntryModel { path: self.path@, modified: self.modified }
    }
}

impl DeepView for ScanEntry {
    type V = EntryModel;

    open spec fn deep_view(&self) -> EntryModel {
        self@
    }
}

/// Mathematical model of one planned sync.
#[verifier::ext_equal]
pub struct TaskModel {
    pub path: Seq<char>,
    pub modified: u64,
    pub existing_ref: Option<Seq<char>>,
}

/// One file to sync this cycle, with the remote reference to reuse, if any.
#[derive(Clone, Debug)]
pub struct SyncTask {
    pub path: String,
    pub modified: u64,
    pub existing_ref: Option<String>,
}

impl View for SyncTask {
    type V = TaskModel;

    open spec fn view(&self) -> TaskModel {
        TaskModel {
            path: self.path@,
            modified: self.modified,
            existing_ref: self.existing_ref.deep_view(),
        }
    }
}

impl DeepView for SyncTask {
    type V = TaskModel;

    open spec fn deep_view(&self) -> TaskModel {
        self@
    }
}

/// Mathematical model of one attempted file's outcome.
#[verifier::ext_equal]
pub struct OutcomeModel {
    pub path: Seq<char>,
    pub modified: u64,
    pub result: Result<Seq<char>, RemoteError>,
}

/// The outcome of one attempted file: the remote reference its attach call
/// returned, or the error that stopped it.
#[derive(Debug)]
pub struct SyncOutcome {
    pub path: String,
    pub modified: u64,
    pub result: Result<String, RemoteError>,
}

impl View for SyncOutcome {
    type V = OutcomeModel;

    open spec fn view(&self) -> OutcomeModel {
        OutcomeModel {
            path: self.path@,
            modified: self.modified,
            result: sync_result_view(self.result),
        }
    }
}

impl DeepView for SyncOutcome {
    type V = OutcomeModel;

    open spec fn deep_view(&self) -> OutcomeModel {
        self@
    }
}

/// What one cycle attempted and how it went.
#[derive(Clone, Copy, Debug, PartialEq, Eq, Structural)]
pub struct CycleSummary {
    /// Files the plan contained and the cycle attempted.
    pub attempted: usize,
    /// Files whose two remote calls succeeded and whose record was updated.
    pub synced: usize,
    /// Files that failed with a remote error.
    pub failed: usize,
}

/// The plan for one cycle: one task per dirty scanned file, in scan order,
/// carrying the remote reference recorded for its path, if any.
pub open spec fn plan_spec(m: Map<Seq<char>, RecordModel>, scanned: Seq<EntryModel>) -> Seq<
    TaskModel,
>
    decreases scanned.len(),
{
    if scanned.len() == 0 {
        Seq::empty()
    } else {
        let rest = plan_spec(m, scanned.drop_last());
        let e = scanned.last();
        if is_dirty_spec(m, e.path, e.modified) {
            rest.push(
                TaskModel {
                    path: e.path,
                    modified: e.modified,
                    existing_ref: existing_ref_spec(m, e.path),
                },
            )
        } else {
            rest
        }
    }
}

/// The tracker after the outcomes of one cycle are applied in order: each
/// success updates its path's record, each failure changes nothing.
pub open spec fn apply_outcomes_spec(
    m: Map<Seq<char>, RecordModel>,
    outcomes: Seq<OutcomeModel>,
) -> Map<Seq<char>, RecordModel>
    decreases outcomes.len(),
{
    if outcomes.len() == 0 {
        m
    } else {
        let rest = apply_outcomes_spec(m, outcomes.drop_last());
        let o = outcomes.last();
        match o.result {
            Ok(returned) => record_success_spec(rest, o.path, o.modified, returned),
            Err(_) => rest,
        }
    }
}

/// Number of successful outcomes.
pub open spec fn count_ok(outcomes: Seq<OutcomeModel>) -> nat
    decreases outcomes.len(),
{
    if outcomes.len() == 0 {
        0
    } else {
        count_ok(outcomes.drop_last()) + if outcomes.last().result is Ok {
            1nat
        } else {
            0nat
        }
    }
}

/// Diffs the scanned files against the tracker: exactly the dirty ones
/// become tasks, in scan order, each carrying the recorded remote
/// reference of its path.
pub fn plan_cycle(tracker: &ChangeTracker, scanned: &Vec<ScanEntry>) -> (tasks: Vec<SyncTask>)
    requires
        tracker.wf(),
    ensures
        tasks.deep_view() == plan_spec(tracker@, scanned.deep_view()),
{
    let mut tasks: Vec<SyncTask> = Vec::new();
    let mut i: usize = 0;
    while i < scanned.len()
        invariant
            tracker.wf(),
            i <= scanned@.len(),
            tasks.deep_view() == plan_spec(tracker@, scanned.deep_view().take(i as int)),
        decreases scanned@.len() - i,
    {
        proof {
            assert(scanned.deep_view().take(i + 1).drop_last() =~= scanned.deep_view().take(
                i as int,
            ));
            assert(scanned.deep_view().take(i + 1).last() == scanned.deep_view()[i as int]);
        }
        let entry = &scanned[i];
        match tracker.check(entry.path.as_str(), entry.modified) {
            Dirtiness::Dirty { existing } => {
                tasks.push(
                    SyncTask {
                        path: entry.path.clone(),
                        modified: entry.modified,
                        existing_ref: existing,
                    },
                );
            },
            Dirtiness::Clean => {
            },
        }
        i = i + 1;
    }
    proof {
        assert(scanned.deep_view().take(scanned@.len() as int) =~= scanned.deep_view());
    }
    tasks
}

/// Folds one cycle's outcomes into the tracker: every success updates its
/// own path's record, failures update nothing, and the summary counts both.
pub fn apply_outcomes(tracker: &mut ChangeTracker, outcomes: &Vec<SyncOutcome>) -> (summary:
    CycleSummary)
    requires
        old(tracker).wf(),
    ensures
        final(tracker).wf(),
        final(tracker)@ == apply_outcomes_spec(old(tracker)@, outcomes.deep_view()),
        summary.attempted == outcomes@.len(),
        summary.synced == count_ok(outcomes.deep_view()),
        summary.failed == outcomes@.len() - count_ok(outcomes.deep_view()),
{
    let mut synced: usize = 0;
    let mut i: usize = 0;
    while i < outcomes.len()
        invariant
            tracker.wf(),
            i <= outcomes@.len(),
            tracker@ == apply_outcomes_spec(old(tracker)@, outcomes.deep_view().take(i as int)),
            synced == count_ok(outcomes.deep_view().take(i as int)),
            synced <= i,
        decreases outcomes@.len() - i,
    {
        proof {
            assert(outcomes.deep_view().take(i + 1).drop_last() =~= outcomes.deep_view().take(
                i as int,
            ));
            assert(outcomes.deep_view().take(i + 1).last() == outcomes.deep_view()[i as int]);
        }
        let outcome = &outcomes[i];
        match &outcome.result {
            Ok(returned) => {
                tracker.record_success(outcome.path.as_str(), outcome.modified, returned.clone());
                synced = synced + 1;
            },
            Err(_) => {
            },
        }
        i = i + 1;
    }
    proof {
        assert(outcomes.deep_view().take(outcomes@.len() as int) =~= outcomes.deep_view());
    }
    CycleSummary { attempted: outcomes.len(), synced, failed: outcomes.len() - synced }
}

} // verus!
