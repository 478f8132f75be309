//! Properties that relate several of the library's functions, stated over
//! the same models the functions' contracts use and proved once here.

use vstd::prelude::*;

use crate::orchestrator::{apply_outcomes_spec, plan_spec, EntryModel, OutcomeModel};
use crate::tracker::{existing_ref_spec, is_dirty_spec, record_success_spec, RecordModel};

verus! {

/// Idempotence of unmodified files: a path whose record is at least as new
/// as every scanned modification time for it is never planned, so a cycle
/// issues no network call for it.
pub proof fn lemma_unmodified_file_skipped(
    m: Map<Seq<char>, RecordModel>,
    scanned: Seq<EntryModel>,
    p: Seq<char>,
)
    requires
        m.dom().contains(p),
        forall|i: int|
            0 <= i < scanned.len() && (#[trigger] scanned[i]).path == p ==> scanned[i].modified
                <= m[p].last_synced_at,
    ensures
        forall|j: int|
            0 <= j < plan_spec(m, scanned).len() ==> (#[trigger] plan_spec(m, scanned)[j]).path
                != p,
    decreases scanned.len(),
{
    if scanned.len() > 0 {
        lemma_unmodified_file_skipped(m, scanned.drop_last(), p);
        let e = scanned.last();
        if is_dirty_spec(m, e.path, e.modified) {
            assert(scanned[scanned.len() - 1] == e);
            assert(e.path != p);
        }
    }
}

/// A remote reference is never discarded or replaced: once a path's record
/// carries a reference, any later successful sync of the path keeps it,
/// whatever reference that sync's attach call returned.
pub proof fn lemma_remote_ref_stable(
    m: Map<Seq<char>, RecordModel>,
    path: Seq<char>,
    modified: u64,
    returned: Seq<char>,
    r: Seq<char>,
)
    requires
        existing_ref_spec(m, path) == Some(r),
    ensures
        existing_ref_spec(record_success_spec(m, path, modified, returned), path) == Some(r),
{
}

/// One successful sync of a path, as the tracker sees it: the modification
/// time it stamped and the reference its attach call returned.
#[verifier::ext_equal]
pub struct SyncEvent {
    pub modified: u64,
    pub returned: Seq<char>,
}

/// The tracker after a run of successful syncs of one path, in order.
pub open spec fn replay_syncs(
    m: Map<Seq<char>, RecordModel>,
    path: Seq<char>,
    ops: Seq<SyncEvent>,
) -> Map<Seq<char>, RecordModel>
    decreases ops.len(),
{
    if ops.len() == 0 {
        m
    } else {
        record_success_spec(
            replay_syncs(m, path, ops.drop_last()),
            path,
            ops.last().modified,
            ops.last().returned,
        )
    }
}

/// Create-once invariant: starting from a path without a remote reference,
/// the first successful sync assigns the reference its create call
/// returned, and after every later successful sync the path still carries
/// exactly that first reference — so every sync after the first sees an
/// existing reference and attaches by update, never by create.
pub proof fn lemma_create_once(
    m: Map<Seq<char>, RecordModel>,
    path: Seq<char>,
    ops: Seq<SyncEvent>,
)
    requires
        ops.len() >= 1,
        existing_ref_spec(m, path) is None,
    ensures
        forall|k: int|
            1 <= k <= ops.len() ==> existing_ref_spec(
                replay_syncs(m, path, ops.take(k)),
                path,
            ) == Some(ops[0].returned),
    decreases ops.len(),
{
    if ops.len() == 1 {
        assert(ops.take(1).drop_last() =~= ops.take(0));
        assert(ops.take(0) =~= Seq::<SyncEvent>::empty());
        assert(ops.take(1).last() == ops[0]);
    } else {
        lemma_create_once(m, path, ops.drop_last());
        assert forall|k: int|
            1 <= k <= ops.len() implies existing_ref_spec(
            replay_syncs(m, path, ops.take(k)),
            path,
        ) == Some(ops[0].returned) by {
            assert(ops.drop_last()[0] == ops[0]);
            if k < ops.len() {
                assert(ops.take(k) =~= ops.drop_last().take(k));
            } else {
                let n = ops.len() as int;
                assert(ops.take(n) =~= ops);
                assert(ops.take(n - 1) =~= ops.drop_last().take(n - 1));
                assert(existing_ref_spec(replay_syncs(m, path, ops.drop_last()), path) == Some(
                    ops[0].returned,
                ));
                assert(replay_syncs(m, path, ops) == record_success_spec(
                    replay_syncs(m, path, ops.drop_last()),
                    path,
                    ops.last().modified,
                    ops.last().returned,
                ));
            }
        }
    }
}

/// Outcomes that never mention a path leave that path's record alone.
pub proof fn lemma_apply_outcomes_frame(
    m: Map<Seq<char>, RecordModel>,
    outcomes: Seq<OutcomeModel>,
    p: Seq<char>,
)
    requires
        forall|j: int| 0 <= j < outcomes.len() ==> (#[trigger] outcomes[j]).path != p,
    ensures
        apply_outcomes_spec(m, outcomes).dom().contains(p) == m.dom().contains(p),
        m.dom().contains(p) ==> apply_outcomes_spec(m, outcomes)[p] == m[p],
    decreases outcomes.len(),
{
    if outcomes.len() > 0 {
        lemma_apply_outcomes_frame(m, outcomes.drop_last(), p);
        assert(outcomes[outcomes.len() - 1] == outcomes.last());
    }
}

/// Partial-failure isolation: in a cycle whose attempted files have
/// distinct paths, a successful file's record ends up exactly as if its
/// sync had run alone against the starting tracker — the other files'
/// failures have no effect on it.
pub proof fn lemma_partial_failure_isolation(
    m: Map<Seq<char>, RecordModel>,
    outcomes: Seq<OutcomeModel>,
    i: int,
)
    requires
        0 <= i < outcomes.len(),
        outcomes[i].result is Ok,
        forall|j: int|
            0 <= j < outcomes.len() && j != i ==> (#[trigger] outcomes[j]).path
                != outcomes[i].path,
    ensures
        apply_outcomes_spec(m, outcomes).dom().contains(outcomes[i].path),
        apply_outcomes_spec(m, outcomes)[outcomes[i].path] == record_success_spec(
            m,
            outcomes[i].path,
            outcomes[i].modified,
            outcomes[i].result->Ok_0,
        )[outcomes[i].path],
    decreases outcomes.len(),
{
    let p = outcomes[i].path;
    if i == outcomes.len() - 1 {
        lemma_apply_outcomes_frame(m, outcomes.drop_last(), p);
        assert(outcomes.last() == outcomes[i]);
    } else {
        assert(outcomes.last().path != p);
        lemma_partial_failure_isolation(m, outcomes.drop_last(), i);
        assert(outcomes.drop_last()[i] == outcomes[i]);
    }
}

} // verus!
