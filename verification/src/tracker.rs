//! In-memory record of every previously synced file: the modification time
//! seen at its last successful sync and the remote reference assigned to it.
//!
//! The tracker decides which scanned files are dirty and is updated only
//! after a file's sync has been confirmed. A remote reference, once
//! assigned to a path, is never discarded or replaced: a later successful
//! sync of the same path keeps the reference the path already has.

use vstd::prelude::*;

use crate::text::str_eq;

verus! {

/// Mathematical model of one tracked file's record.
#[verifier::ext_equal]
pub struct RecordModel {
    pub last_synced_at: u64,
    pub remote_ref: Option<Seq<char>>,
}

/// Per-path record: the file's modification time at its last successful
/// sync, and the remote reference assigned on its first sync.
#[derive(Clone, Debug)]
pub struct FileRecord {
    pub last_synced_at: u64,
    pub remote_ref: Option<String>,
}

impl View for FileRecord {
    type V = RecordModel;

    open spec fn view(&self) -> RecordModel {
        RecordModel {
            last_synced_at: self.last_synced_at,
            remote_ref: self.remote_ref.deep_view(),
        }
    }
}

struct TrackEntry {
    path: String,
    record: FileRecord,
}

/// Map from each tracked path to its record.
pub struct ChangeTracker {
    entries: Vec<TrackEntry>,
}

/// A file is dirty when no record exists for its path or the recorded
/// last-synced time is strictly older than its current modification time.
pub open spec fn is_dirty_spec(m: Map<Seq<char>, RecordModel>, path: Seq<char>, modified: u64) -> bool {
    !m.dom().contains(path) || m[path].last_synced_at < modified
}

/// The remote reference to reuse for `path`: the recorded one, if any.
pub open spec fn existing_ref_spec(m: Map<Seq<char>, RecordModel>, path: Seq<char>) -> Option<
    Seq<char>,
> {
    if m.dom().contains(path) {
        m[path].remote_ref
    } else {
        None
    }
}

/// The tracker after a confirmed sync of `path`: the record's time becomes
/// `modified`, and the remote reference stays what it was, or becomes
/// `returned` if the path had none yet.
pub open spec fn record_success_spec(
    m: Map<Seq<char>, RecordModel>,
    path: Seq<char>,
    modified: u64,
    returned: Seq<char>,
) -> Map<Seq<char>, RecordModel> {
    let kept = if m.dom().contains(path) && m[path].remote_ref is Some {
        m[path].remote_ref
    } else {
        Some(returned)
    };
    m.insert(path, RecordModel { last_synced_at: modified, remote_ref: kept })
}

/// Dirtiness verdict for one scanned file.
#[derive(Clone, Debug)]
pub enum Dirtiness {
    /// The file's content is already synced: nothing to send.
    Clean,
    /// The file must be synced, reusing `existing` if it is present.
    Dirty { existing: Option<String> },
}

fn clone_opt_string(o: &Option<String>) -> (r: Option<String>)
    ensures
        r.deep_view() == o.deep_view(),
{
    match o {
        Some(s) => Some(s.clone()),
        None => None,
    }
}

impl ChangeTracker {
    spec fn entries_wf(s: Seq<TrackEntry>) -> bool {
        forall|i: int, j: int|
            0 <= i < j < s.len() ==> (#[trigger] s[i]).path@ != (#[trigger] s[j]).path@
    }

    /// The tracker's paths are unique, so it denotes a map.
    pub closed spec fn wf(self) -> bool {
        Self::entries_wf(self.entries@)
    }

    spec fn map_of(s: Seq<TrackEntry>) -> Map<Seq<char>, RecordModel>
        decreases s.len(),
    {
        if s.len() == 0 {
            Map::empty()
        } else {
            Self::map_of(s.drop_last()).insert(s.last().path@, s.last().record@)
        }
    }

    pub closed spec fn view(&self) -> Map<Seq<char>, RecordModel> {
        Self::map_of(self.entries@)
    }

    proof fn lemma_map_of_absent(s: Seq<TrackEntry>, k: Seq<char>)
        requires
            forall|i: int| 0 <= i < s.len() ==> (#[trigger] s[i]).path@ != k,
        ensures
            !Self::map_of(s).dom().contains(k),
        decreases s.len(),
    {
        if s.len() > 0 {
            assert(forall|i: int|
                0 <= i < s.drop_last().len() ==> (#[trigger] s.drop_last()[i]).path@ != k);
            Self::lemma_map_of_absent(s.drop_last(), k);
        }
    }

    proof fn lemma_map_of_found(s: Seq<TrackEntry>, i: int)
        requires
            0 <= i < s.len(),
            forall|j: int| i < j < s.len() ==> (#[trigger] s[j]).path@ != s[i].path@,
        ensures
            Self::map_of(s).dom().contains(s[i].path@),
            Self::map_of(s)[s[i].path@] == s[i].record@,
        decreases s.len(),
    {
        if i == s.len() - 1 {
        } else {
            assert(forall|j: int|
                i < j < s.drop_last().len() ==> (#[trigger] s.drop_last()[j]).path@
                    != s.drop_last()[i].path@);
            Self::lemma_map_of_found(s.drop_last(), i);
            assert(s.last().path@ != s[i].path@);
        }
    }

    proof fn lemma_map_of_update(s: Seq<TrackEntry>, i: int, e: TrackEntry)
        requires
            0 <= i < s.len(),
            e.path@ == s[i].path@,
            forall|j: int| i < j < s.len() ==> (#[trigger] s[j]).path@ != s[i].path@,
        ensures
            Self::map_of(s.update(i, e)) == Self::map_of(s).insert(e.path@, e.record@),
        decreases s.len(),
    {
        let t = s.update(i, e);
        if i == s.len() - 1 {
            assert(t.drop_last() =~= s.drop_last());
            assert(t.last() == e);
            assert(Self::map_of(s.drop_last()).insert(e.path@, e.record@) =~= Self::map_of(
                s.drop_last(),
            ).insert(s[i].path@, s[i].record@).insert(e.path@, e.record@));
        } else {
            assert(t.drop_last() =~= s.drop_last().update(i, e));
            assert(t.last() == s.last());
            assert(forall|j: int|
                i < j < s.drop_last().len() ==> (#[trigger] s.drop_last()[j]).path@
                    != s.drop_last()[i].path@);
            Self::lemma_map_of_update(s.drop_last(), i, e);
            assert(s.last().path@ != e.path@);
            assert(Self::map_of(s.drop_last()).insert(e.path@, e.record@).insert(
                s.last().path@,
                s.last().record@,
            ) =~= Self::map_of(s.drop_last()).insert(s.last().path@, s.last().record@).insert(
                e.path@,
                e.record@,
            ));
        }
    }

    proof fn lemma_map_of_push(s: Seq<TrackEntry>, e: TrackEntry)
        ensures
            Self::map_of(s.push(e)) == Self::map_of(s).insert(e.path@, e.record@),
    {
        assert(s.push(e).drop_last() =~= s);
        assert(s.push(e).last() == e);
    }

    /// An empty tracker: every first sight of a path will be dirty.
    pub fn new() -> (t: ChangeTracker)
        ensures
            t.wf(),
            t@ == Map::<Seq<char>, RecordModel>::empty(),
    {
        ChangeTracker { entries: Vec::new() }
    }

    fn find(&self, path: &str) -> (r: Option<usize>)
        requires
            self.wf(),
        ensures
            match r {
                Some(i) => i < self.entries@.len() && self.entries@[i as int].path@ == path@
                    && self@.dom().contains(path@) && self@[path@] == self.entries@[
                    i as int
                ].record@ && (forall|j: int|
                    i < j < self.entries@.len() ==> (#[trigger] self.entries@[j]).path@ != path@),
                None => !self@.dom().contains(path@) && (forall|j: int|
                    0 <= j < self.entries@.len() ==> (#[trigger] self.entries@[j]).path@ != path@),
            },
    {
        let mut i: usize = 0;
        while i < self.entries.len()
            invariant
                self.wf(),
                i <= self.entries@.len(),
                forall|j: int| 0 <= j < i ==> (#[trigger] self.entries@[j]).path@ != path@,
            decreases self.entries@.len() - i,
        {
            if str_eq(self.entries[i].path.as_str(), path) {
                proof {
                    Self::lemma_map_of_found(self.entries@, i as int);
                }
                return Some(i);
            }
            i = i + 1;
        }
        proof {
            Self::lemma_map_of_absent(self.entries@, path@);
        }
        None
    }

    /// The record held for `path`, if one exists.
    pub fn get(&self, path: &str) -> (r: Option<&FileRecord>)
        requires
            self.wf(),
        ensures
            match r {
                Some(rec) => self@.dom().contains(path@) && rec@ == self@[path@],
                None => !self@.dom().contains(path@),
            },
    {
        match self.find(path) {
            Some(i) => Some(&self.entries[i].record),
            None => None,
        }
    }

    /// The single dirtiness decision: a file is reported dirty if and only
    /// if no record exists for its path or the recorded time is strictly
    /// older than `modified`; a dirty verdict carries the remote reference
    /// to reuse, exactly the recorded one.
    pub fn check(&self, path: &str, modified: u64) -> (d: Dirtiness)
        requires
            self.wf(),
        ensures
            (d is Dirty) == is_dirty_spec(self@, path@, modified),
            d matches Dirtiness::Dirty { existing } ==> existing.deep_view() == existing_ref_spec(
                self@,
                path@,
            ),
    {
        match self.find(path) {
            None => Dirtiness::Dirty { existing: None },
            Some(i) => {
                let record = &self.entries[i].record;
                if record.last_synced_at < modified {
                    Dirtiness::Dirty { existing: clone_opt_string(&record.remote_ref) }
                } else {
                    Dirtiness::Clean
                }
            },
        }
    }

    /// Applies a confirmed sync of `path` to the tracker: the path's record
    /// now carries `modified`, and its remote reference is the one it
    /// already had, or `returned` on the path's first successful sync.
    pub fn record_success(&mut self, path: &str, modified: u64, returned: String)
        requires
            old(self).wf(),
        ensures
            final(self).wf(),
            final(self)@ == record_success_spec(old(self)@, path@, modified, returned@),
    {
        match self.find(path) {
            Some(i) => {
                let ghost entries0 = self.entries@;
                let ghost updated = RecordModel {
                    last_synced_at: modified,
                    remote_ref: if entries0[i as int].record@.remote_ref is Some {
                        entries0[i as int].record@.remote_ref
                    } else {
                        Some(returned@)
                    },
                };
                let entry = &mut self.entries[i];
                entry.record.last_synced_at = modified;
                if entry.record.remote_ref.is_none() {
                    entry.record.remote_ref = Some(returned);
                }
                proof {
                    assert(self.entries@ =~= entries0.update(
                        i as int,
                        TrackEntry { path: entries0[i as int].path, record: self.entries@[i as int].record },
                    ));
                    assert(self.entries@[i as int].record@ =~= updated);
                    Self::lemma_map_of_update(entries0, i as int, self.entries@[i as int]);
                    assert(final(self)@ =~= record_success_spec(
                        Self::map_of(entries0),
                        path@,
                        modified,
                        returned@,
                    ));
                }
            },
            None => {
                let ghost entries0 = self.entries@;
                let entry = TrackEntry {
                    path: path.to_owned(),
                    record: FileRecord { last_synced_at: modified, remote_ref: Some(returned) },
                };
                self.entries.push(entry);
                proof {
                    Self::lemma_map_of_push(entries0, self.entries@.last());
                    assert(final(self)@ =~= record_success_spec(
                        Self::map_of(entries0),
                        path@,
                        modified,
                        returned@,
                    ));
                    assert forall|i: int, j: int|
                        0 <= i < j < self.entries@.len() implies (#[trigger] self.entries@[
                        i
                    ]).path@ != (#[trigger] self.entries@[j]).path@ by {
                        if j == self.entries@.len() - 1 {
                            assert(entries0[i].path@ != path@);
                        }
                    }
                }
            },
        }
    }
}

} // verus!
