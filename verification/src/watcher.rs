//! The change watcher.
//!
//! Filesystem events drive everything: for each burst of events the watcher
//! checks its debounce gate, and for each changed source file it reads the
//! new text (done by the caller, which owns the I/O), looks up the old text
//! in the snapshot store, classifies the edit, updates the store, and says
//! whether a rebuild is owed and which patches to stream. All of that is
//! strictly sequential: no two classifications for the same file race.
use vstd::prelude::*;

use crate::differ::{classify, spec_classify, ChangeClassification, ClassSpec, PatchMessage,
    PatchSpec};
use crate::location::{rel_path, relative_path};
use crate::snapshot::SnapshotStore;
use crate::text::copy_range;

verus! {

/// The bytes of the recognized source-file suffix `.rs`.
pub open spec fn source_suffix() -> Seq<u8> {
    seq!['.' as u8, 'r' as u8, 's' as u8]
}

/// True when `p` names a source file: it ends in the recognized suffix.
pub open spec fn is_source_path(p: Seq<u8>) -> bool {
    p.len() >= 3 && p.subrange(p.len() - 3, p.len() as int) == source_suffix()
}

/// True when `path` names a source file.
pub fn has_source_extension(path: &[u8]) -> (r: bool)
    ensures
        r <==> is_source_path(path@),
{
    let n = path.len();
    if n < 3 {
        return false;
    }
    let r = path[n - 3] == ('.' as u8) && path[n - 2] == ('r' as u8) && path[n - 1] == ('s' as u8);
    proof {
        let s = path@;
        if r {
            assert(s.subrange(s.len() - 3, s.len() as int) =~= source_suffix());
        } else {
            if s.subrange(s.len() - 3, s.len() as int) == source_suffix() {
                assert(forall|k: int|
                    0 <= k < 3 ==> s.subrange(s.len() - 3, s.len() as int)[k]
                        == source_suffix()[k]);
                assert(false);
            }
        }
    }
    r
}

/// The mathematical value of a `FileOutcome`.
pub enum FileOutcomeSpec {
    /// Not a source file: nothing done.
    Ignored,
    /// Old and new text identical: nothing done, nothing emitted.
    Unchanged,
    /// No old text was stored: never diffed against nothing, the file
    /// forces a rebuild and its text is stored.
    FirstSeen,
    /// The edit reaches beyond template bodies, or a text does not parse:
    /// the file forces a rebuild and its new text is stored.
    StructuralEdit,
    /// Only template bodies changed: the patches to stream, one per
    /// changed site.
    Patches(Seq<PatchSpec>),
}

/// What processing one changed file did.
#[derive(Debug, PartialEq, Eq)]
pub enum FileOutcome {
    /// Not a source file: nothing done.
    Ignored,
    /// Old and new text identical: nothing done, nothing emitted.
    Unchanged,
    /// No old text was stored: the file forces a rebuild and its text is
    /// stored.
    FirstSeen,
    /// The edit reaches beyond template bodies, or a text does not parse:
    /// the file forces a rebuild and its new text is stored.
    StructuralEdit,
    /// Only template bodies changed: the patches to stream, one per
    /// changed site.
    Patches(Vec<PatchMessage>),
}

impl View for FileOutcome {
    type V = FileOutcomeSpec;

    open spec fn view(&self) -> FileOutcomeSpec {
        match self {
            FileOutcome::Ignored => FileOutcomeSpec::Ignored,
            FileOutcome::Unchanged => FileOutcomeSpec::Unchanged,
            FileOutcome::FirstSeen => FileOutcomeSpec::FirstSeen,
            FileOutcome::StructuralEdit => FileOutcomeSpec::StructuralEdit,
            FileOutcome::Patches(msgs) => FileOutcomeSpec::Patches(
                msgs@.map_values(|p: PatchMessage| p@),
            ),
        }
    }
}

/// What processing one changed file yields, given the project root, the
/// stored snapshots and the file's new text.
pub open spec fn spec_file_outcome(
    root: Seq<u8>,
    snap: Map<Seq<u8>, Seq<u8>>,
    path: Seq<u8>,
    new: Seq<u8>,
) -> FileOutcomeSpec {
    if !is_source_path(path) {
        FileOutcomeSpec::Ignored
    } else if !snap.contains_key(path) {
        FileOutcomeSpec::FirstSeen
    } else {
        match spec_classify(rel_path(root, path), snap[path], new) {
            ClassSpec::NoChange => FileOutcomeSpec::Unchanged,
            ClassSpec::TemplateUpdates(ps) => FileOutcomeSpec::Patches(ps),
            ClassSpec::StructuralChange => FileOutcomeSpec::StructuralEdit,
        }
    }
}

/// True when the outcome forces a rebuild.
pub open spec fn outcome_forces_rebuild(o: FileOutcomeSpec) -> bool {
    o is FirstSeen || o is StructuralEdit
}

/// The snapshot store after processing one file: the new text is stored on
/// the rebuild outcomes — first-seen and structural — and on no other. A
/// patched file keeps its stored text, so later patches still address the
/// call sites the running client was compiled from.
pub open spec fn spec_snap_after(
    root: Seq<u8>,
    snap: Map<Seq<u8>, Seq<u8>>,
    path: Seq<u8>,
    new: Seq<u8>,
) -> Map<Seq<u8>, Seq<u8>> {
    if outcome_forces_rebuild(spec_file_outcome(root, snap, path, new)) {
        snap.insert(path, new)
    } else {
        snap
    }
}

/// First-seen safety: the first observed change to a file — no snapshot is
/// stored for its path — is never hot-patched: the outcome forces a
/// rebuild, and the text is stored so the next edit diffs against it.
pub proof fn lemma_first_seen_forces_rebuild(
    root: Seq<u8>,
    snap: Map<Seq<u8>, Seq<u8>>,
    path: Seq<u8>,
    new: Seq<u8>,
)
    requires
        is_source_path(path),
        !snap.contains_key(path),
    ensures
        spec_file_outcome(root, snap, path, new) == FileOutcomeSpec::FirstSeen,
        !(spec_file_outcome(root, snap, path, new) is Patches),
        outcome_forces_rebuild(spec_file_outcome(root, snap, path, new)),
        spec_snap_after(root, snap, path, new) == snap.insert(path, new),
{
}

/// Idempotence at the file level: a burst that hands back the very text
/// already stored classifies as no change, emits no message and stores
/// nothing.
pub proof fn lemma_identical_text_emits_nothing(
    root: Seq<u8>,
    snap: Map<Seq<u8>, Seq<u8>>,
    path: Seq<u8>,
)
    requires
        is_source_path(path),
        snap.contains_key(path),
    ensures
        spec_file_outcome(root, snap, path, snap[path]) == FileOutcomeSpec::Unchanged,
        spec_snap_after(root, snap, path, snap[path]) == snap,
{
    crate::differ::lemma_identical_text_is_no_change(rel_path(root, path), snap[path]);
}

/// A patches outcome never carries zero patches: it arises only where the
/// stored and the new text differ, and then some template body differs.
pub proof fn lemma_patches_outcome_nonempty(
    root: Seq<u8>,
    snap: Map<Seq<u8>, Seq<u8>>,
    path: Seq<u8>,
    new: Seq<u8>,
)
    requires
        spec_file_outcome(root, snap, path, new) matches FileOutcomeSpec::Patches(ps),
    ensures
        spec_file_outcome(root, snap, path, new) matches FileOutcomeSpec::Patches(ps) && ps.len()
            > 0,
{
    crate::differ::lemma_updates_never_empty(rel_path(root, path), snap[path], new);
}

/// Consumes filesystem events and serializes all classification work.
pub struct ChangeWatcher {
    snapshots: SnapshotStore,
    last_processed: i64,
    root: Vec<u8>,
}

/// What one burst of filesystem events did.
pub struct EventOutcome {
    /// Whether the burst passed the debounce gate and was processed.
    pub processed: bool,
    /// Whether some file's outcome forces a rebuild.
    pub needs_rebuild: bool,
    /// Every patch the burst produced, in file order.
    pub messages: Vec<PatchMessage>,
}

/// The store, the rebuild flag and the patches after processing the first
/// `k` changed files of a burst, in order, each against the store its
/// predecessors left.
pub open spec fn spec_process_files(
    root: Seq<u8>,
    snap: Map<Seq<u8>, Seq<u8>>,
    files: Seq<(Vec<u8>, Vec<u8>)>,
    k: int,
) -> (Map<Seq<u8>, Seq<u8>>, bool, Seq<PatchSpec>)
    decreases k,
{
    if k <= 0 {
        (snap, false, Seq::empty())
    } else {
        let prev = spec_process_files(root, snap, files, k - 1);
        let path = files[k - 1].0@;
        let new = files[k - 1].1@;
        let oc = spec_file_outcome(root, prev.0, path, new);
        (
            spec_snap_after(root, prev.0, path, new),
            prev.1 || outcome_forces_rebuild(oc),
            prev.2 + match oc {
                FileOutcomeSpec::Patches(ps) => ps,
                _ => Seq::empty(),
            },
        )
    }
}

impl ChangeWatcher {
    /// The stored snapshots, as a map from path to last-known text.
    pub closed spec fn snapshot_map(&self) -> Map<Seq<u8>, Seq<u8>> {
        self.snapshots@
    }

    /// The debounce gate: the timestamp of the last processed burst.
    pub closed spec fn gate(&self) -> int {
        self.last_processed as int
    }

    /// The project root directory.
    pub closed spec fn project_root(&self) -> Seq<u8> {
        self.root@
    }

    /// The store is well formed and every stored text fits the machine.
    pub closed spec fn wf(&self) -> bool {
        &&& self.snapshots.wf()
        &&& forall|p: Seq<u8>|
            self.snapshots@.contains_key(p) ==> (#[trigger] self.snapshots@[p]).len()
                < usize::MAX - 11
    }

    /// A watcher with an empty store: every file starts first-seen.
    pub fn new(root: Vec<u8>, start_time: i64) -> (r: ChangeWatcher)
        ensures
            r.wf(),
            r.snapshot_map() == Map::<Seq<u8>, Seq<u8>>::empty(),
            r.gate() == start_time as int,
            r.project_root() == root@,
    {
        ChangeWatcher { snapshots: SnapshotStore::new(), last_processed: start_time, root }
    }

    /// Processes one changed file: ignores non-source paths, stores a
    /// first-seen file's text, and otherwise classifies the edit against
    /// the stored text, storing the new text exactly on the outcomes that
    /// force a rebuild.
    pub fn process_file(&mut self, path: &[u8], new_text: &[u8]) -> (r: FileOutcome)
        requires
            old(self).wf(),
            new_text@.len() < usize::MAX - 11,
        ensures
            final(self).wf(),
            final(self).project_root() == old(self).project_root(),
            final(self).gate() == old(self).gate(),
            r@ == spec_file_outcome(
                old(self).project_root(),
                old(self).snapshot_map(),
                path@,
                new_text@,
            ),
            final(self).snapshot_map() == spec_snap_after(
                old(self).project_root(),
                old(self).snapshot_map(),
                path@,
                new_text@,
            ),
    {
        if !has_source_extension(path) {
            return FileOutcome::Ignored;
        }
        let stored = self.snapshots.get(path);
        match stored {
            None => {
                let text = copy_range(new_text, 0, new_text.len());
                proof {
                    assert(text@ =~= new_text@);
                }
                self.snapshots.set(path, text);
                FileOutcome::FirstSeen
            },
            Some(old_text) => {
                proof {
                    assert(self.snapshots@[path@].len() < usize::MAX - 11);
                }
                let rel = relative_path(self.root.as_slice(), path);
                let c = classify(rel.as_slice(), old_text.as_slice(), new_text);
                match c {
                    ChangeClassification::NoChange => FileOutcome::Unchanged,
                    ChangeClassification::StructuralChange => {
                        let text = copy_range(new_text, 0, new_text.len());
                        proof {
                            assert(text@ =~= new_text@);
                        }
                        self.snapshots.set(path, text);
                        FileOutcome::StructuralEdit
                    },
                    ChangeClassification::TemplateUpdates(msgs) => FileOutcome::Patches(msgs),
                }
            },
        }
    }

    /// Processes one burst of filesystem events, arriving at `now`. A burst
    /// not strictly newer than the last processed one is dropped whole; a
    /// fresh burst moves the debounce cutoff to `now`, and every changed
    /// file is processed in arrival order, each against the store its
    /// predecessors left.
    pub fn process_event(&mut self, now: i64, files: &Vec<(Vec<u8>, Vec<u8>)>) -> (r: EventOutcome)
        requires
            old(self).wf(),
            forall|k: int|
                0 <= k < files@.len() ==> (#[trigger] files@[k]).1@.len() < usize::MAX - 11,
        ensures
            final(self).wf(),
            final(self).project_root() == old(self).project_root(),
            now <= old(self).gate() ==> (!r.processed && !r.needs_rebuild && r.messages@.len()
                == 0 && final(self).snapshot_map() == old(self).snapshot_map() && final(self).gate()
                == old(self).gate()),
            now > old(self).gate() ==> (r.processed && final(self).gate() == now as int && {
                let end = spec_process_files(
                    old(self).project_root(),
                    old(self).snapshot_map(),
                    files@,
                    files@.len() as int,
                );
                &&& final(self).snapshot_map() == end.0
                &&& r.needs_rebuild == end.1
                &&& r.messages@.map_values(|p: PatchMessage| p@) == end.2
            }),
    {
        if now <= self.last_processed {
            return EventOutcome { processed: false, needs_rebuild: false, messages: Vec::new() };
        }
        let ghost root = self.root@;
        let ghost snap0 = self.snapshots@;
        let mut needs_rebuild = false;
        let mut messages: Vec<PatchMessage> = Vec::new();
        let n = files.len();
        let mut k: usize = 0;
        proof {
            assert(messages@.map_values(|p: PatchMessage| p@) =~= Seq::<PatchSpec>::empty());
        }
        while k < n
            invariant
                0 <= k <= n == files@.len(),
                self.wf(),
                self.project_root() == root,
                self.gate() == old(self).gate(),
                forall|m: int|
                    0 <= m < files@.len() ==> (#[trigger] files@[m]).1@.len() < usize::MAX - 11,
                spec_process_files(root, snap0, files@, k as int) == (
                    self.snapshot_map(),
                    needs_rebuild,
                    messages@.map_values(|p: PatchMessage| p@),
                ),
            decreases n - k,
        {
            let ghost prev = spec_process_files(root, snap0, files@, k as int);
            let ghost pre_msgs = messages@.map_values(|p: PatchMessage| p@);
            let outcome = self.process_file(files[k].0.as_slice(), files[k].1.as_slice());
            match outcome {
                FileOutcome::Ignored => {
                    proof {
                        assert(pre_msgs + Seq::<PatchSpec>::empty() =~= pre_msgs);
                    }
                },
                FileOutcome::Unchanged => {
                    proof {
                        assert(pre_msgs + Seq::<PatchSpec>::empty() =~= pre_msgs);
                    }
                },
                FileOutcome::FirstSeen => {
                    needs_rebuild = true;
                    proof {
                        assert(pre_msgs + Seq::<PatchSpec>::empty() =~= pre_msgs);
                    }
                },
                FileOutcome::StructuralEdit => {
                    needs_rebuild = true;
                    proof {
                        assert(pre_msgs + Seq::<PatchSpec>::empty() =~= pre_msgs);
                    }
                },
                FileOutcome::Patches(mut ps) => {
                    let ghost ps_view = ps@.map_values(|p: PatchMessage| p@);
                    messages.append(&mut ps);
                    proof {
                        assert(messages@.map_values(|p: PatchMessage| p@) =~= pre_msgs + ps_view);
                    }
                },
            }
            k += 1;
        }
        let gate_now = now;
        self.last_processed = gate_now;
        EventOutcome { processed: true, needs_rebuild, messages }
    }

    /// Consumes one burst of filesystem events, with the wall clock as its
    /// arrival time. Whatever the clock read: either the burst was stale
    /// and nothing changed, or `process_event` took it whole and the
    /// debounce cutoff moved forward.
    pub fn handle_event(&mut self, files: &Vec<(Vec<u8>, Vec<u8>)>) -> (r: EventOutcome)
        requires
            old(self).wf(),
            forall|k: int|
                0 <= k < files@.len() ==> (#[trigger] files@[k]).1@.len() < usize::MAX - 11,
        ensures
            final(self).wf(),
            final(self).project_root() == old(self).project_root(),
            !r.processed ==> (!r.needs_rebuild && r.messages@.len() == 0
                && final(self).snapshot_map() == old(self).snapshot_map()
                && final(self).gate() == old(self).gate()),
            r.processed ==> (final(self).gate() > old(self).gate() && {
                let end = spec_process_files(
                    old(self).project_root(),
                    old(self).snapshot_map(),
                    files@,
                    files@.len() as int,
                );
                &&& final(self).snapshot_map() == end.0
                &&& r.needs_rebuild == end.1
                &&& r.messages@.map_values(|p: PatchMessage| p@) == end.2
            }),
    {
        let now = timestamp_now();
        self.process_event(now, files)
    }
}

/// Relies on `chrono::offset::Local::now` and `chrono::DateTime::timestamp`
/// for the wall clock's current time in whole seconds. The value depends on
/// the clock alone and nothing is assumed of it.
#[verifier::external_body]
fn timestamp_now() -> i64 {
    chrono::Local::now().timestamp()
}

} // verus!

