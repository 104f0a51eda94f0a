//! The course of a restore: everything is checked before anything is changed.
use vstd::prelude::*;
use crate::checkpoint::{ancestors_judged, blobs_judged, stale_paths, validate_blobs, validate_restore_ancestors, BlobProbe, CheckpointError, StoredCheckpoint, StoredEntry};
use crate::identity::RevisionId;
use crate::paths::{ancestors, components, holds, EntryProbe};
use crate::text::views;

verus! {

/// What is done next in a restore.
#[derive(Clone, Copy, Debug, PartialEq, Eq, Structural)]
pub enum RestorePhase {
    /// Read the contents of the blobs.
    ReadBlobs,
    /// Look at what stands above each path that is written.
    LookAbove,
    /// List the paths of the workspace.
    ListPaths,
    /// Remove a path that the checkpoint does not hold.
    Remove(usize),
    /// Write an entry, with the directories above it made where they are
    /// missing, and with what stands at its path removed first.
    Write(usize),
    /// Read the revision of the workspace.
    ReadRevision,
}

/// The directories above a path, from the top, and what stands at each.
#[derive(Clone, Debug, PartialEq, Eq)]
pub struct Above {
    pub ancestors: Vec<String>,
    pub found: Vec<EntryProbe>,
}

/// What the step of a phase came to.
#[derive(Debug, PartialEq, Eq)]
pub enum RestoreStep {
    Blobs(Vec<BlobProbe>),
    Above(Vec<Above>),
    Paths(Result<Vec<String>, CheckpointError>),
    Changed(Result<(), CheckpointError>),
    Revision(Result<RevisionId, CheckpointError>),
}

/// A restore that is under way.
#[derive(Debug, PartialEq, Eq)]
pub struct Restoration {
    pub workspace: String,
    /// Where the checkpoint lies.
    pub dir: String,
    pub byte_cap: u64,
    pub stored: StoredCheckpoint,
    /// The paths that are removed, once the workspace was listed.
    pub stale: Vec<String>,
    pub phase: RestorePhase,
}

/// A restore after a step.
#[derive(Debug, PartialEq, Eq)]
pub enum RestoreProgress {
    Continue(Restoration),
    Finished(Result<RevisionId, CheckpointError>),
}

/// The paths of entries.
pub open spec fn entry_paths(entries: Seq<StoredEntry>) -> Seq<String> {
    entries.map_values(|e: StoredEntry| e.manifest.path)
}

/// The present paths that the entries do not name, in order.
pub open spec fn stale_of(present: Seq<String>, entries: Seq<StoredEntry>) -> Seq<String> {
    present.filter(|p: String| !holds(entry_paths(entries), components(p@)))
}

/// Whether the directories above every path were looked at.
pub open spec fn looked_above(workspace: Seq<char>, entries: Seq<StoredEntry>, above: Seq<Above>) -> bool {
    &&& above.len() == entries.len()
    &&& forall|i: int|
        0 <= i < above.len() ==> views((#[trigger] above[i]).ancestors@) == ancestors(
            workspace,
            entries[i].manifest.path@,
        ) && above[i].found@.len() == above[i].ancestors@.len()
}

/// Whether `r` is the judgement on what stands above the paths from `i` on: the
/// first path below something that is not a real directory is refused.
pub open spec fn above_judged(above: Seq<Above>, i: int, r: Result<(), CheckpointError>) -> bool
    decreases above.len() - i,
{
    if i < 0 || i >= above.len() {
        r is Ok
    } else if ancestors_judged(above[i].ancestors@, above[i].found@, 0, Ok(())) {
        above_judged(above, i + 1, r)
    } else {
        r is Err && ancestors_judged(above[i].ancestors@, above[i].found@, 0, r)
    }
}

fn judge_above(above: &Vec<Above>) -> (r: Result<(), CheckpointError>)
    requires
        forall|i: int|
            0 <= i < above@.len() ==> (#[trigger] above@[i]).found@.len()
                == above@[i].ancestors@.len(),
    ensures
        above_judged(above@, 0, r),
{
    let mut i: usize = 0;
    while i < above.len()
        invariant
            i <= above.len(),
            forall|k: int|
                0 <= k < above@.len() ==> (#[trigger] above@[k]).found@.len()
                    == above@[k].ancestors@.len(),
            forall|r: Result<(), CheckpointError>| #[trigger]
                above_judged(above@, 0, r) == above_judged(above@, i as int, r),
        decreases above.len() - i,
    {
        let verdict = validate_restore_ancestors(&above[i].ancestors, &above[i].found);
        match verdict {
            Ok(u) => {
                proof {
                    assert(u == ());
                }
            },
            Err(e) => {
                proof {
                    lemma_one_verdict(above@[i as int].ancestors@, above@[i as int].found@, 0, e);
                }
                return Err(e);
            },
        }
        i = i + 1;
    }
    Ok(())
}

proof fn lemma_one_verdict(
    ancestors: Seq<String>,
    found: Seq<EntryProbe>,
    i: int,
    e: CheckpointError,
)
    requires
        ancestors_judged(ancestors, found, i, Err(e)),
    ensures
        !ancestors_judged(ancestors, found, i, Ok(())),
    decreases ancestors.len() - i,
{
    if 0 <= i < ancestors.len() && found[i] is Directory {
        lemma_one_verdict(ancestors, found, i + 1, e);
    }
}

proof fn lemma_one_blob_verdict(
    dir: Seq<char>,
    entries: Seq<StoredEntry>,
    blobs: Seq<BlobProbe>,
    limit: u64,
    i: int,
    total: nat,
    e: CheckpointError,
)
    requires
        blobs_judged(dir, entries, blobs, limit, i, total, Err(e)),
    ensures
        !blobs_judged(dir, entries, blobs, limit, i, total, Ok(())),
    decreases entries.len() - i,
{
    if 0 <= i < entries.len() {
        match blobs[i] {
            BlobProbe::Bytes(bytes) => {
                if blobs_judged(dir, entries, blobs, limit, i + 1, total + bytes@.len(), Err(e)) {
                    lemma_one_blob_verdict(
                        dir,
                        entries,
                        blobs,
                        limit,
                        i + 1,
                        total + bytes@.len(),
                        e,
                    );
                }
            },
            _ => {},
        }
    }
}

/// The phase in which path `i` of the stale ones is next.
pub open spec fn removing(stale: nat, entries: nat, i: nat) -> RestorePhase {
    if i < stale {
        RestorePhase::Remove(i as usize)
    } else {
        writing(entries, 0)
    }
}

/// The phase in which entry `i` is next.
pub open spec fn writing(entries: nat, i: nat) -> RestorePhase {
    if i < entries {
        RestorePhase::Write(i as usize)
    } else {
        RestorePhase::ReadRevision
    }
}

/// Whether a result is of the kind that a restore waits for.
pub open spec fn suits(r: Restoration, step: RestoreStep) -> bool {
    match (r.phase, step) {
        (RestorePhase::ReadBlobs, RestoreStep::Blobs(blobs)) => blobs@.len()
            == r.stored.entries@.len(),
        (RestorePhase::LookAbove, RestoreStep::Above(above)) => looked_above(
            r.workspace@,
            r.stored.entries@,
            above@,
        ),
        (RestorePhase::ListPaths, RestoreStep::Paths(_)) => true,
        (RestorePhase::Remove(_), RestoreStep::Changed(_)) => true,
        (RestorePhase::Write(_), RestoreStep::Changed(_)) => true,
        (RestorePhase::ReadRevision, RestoreStep::Revision(_)) => true,
        _ => false,
    }
}

/// Whether `p` continues the restore `r` in the given phase.
pub open spec fn moves_on(r: Restoration, p: RestoreProgress, stale: Seq<String>, phase: RestorePhase) -> bool {
    p matches RestoreProgress::Continue(n) && n.workspace == r.workspace && n.dir == r.dir
        && n.byte_cap == r.byte_cap && n.stored == r.stored && n.stale@ == stale && n.phase
        == phase
}

/// Whether `p` ends with the given error.
pub open spec fn breaks_off(p: RestoreProgress, error: CheckpointError) -> bool {
    p == RestoreProgress::Finished(Err(error))
}

/// Whether `p` is what follows from a step of a restore.
pub open spec fn ensues(r: Restoration, step: RestoreStep, p: RestoreProgress) -> bool {
    let n = r.stored.entries@.len();
    match (r.phase, step) {
        (RestorePhase::ReadBlobs, RestoreStep::Blobs(blobs)) => if blobs_judged(
            r.dir@,
            r.stored.entries@,
            blobs@,
            r.byte_cap,
            0,
            0,
            Ok(()),
        ) {
            moves_on(r, p, r.stale@, RestorePhase::LookAbove)
        } else {
            p matches RestoreProgress::Finished(Err(e)) && blobs_judged(
                r.dir@,
                r.stored.entries@,
                blobs@,
                r.byte_cap,
                0,
                0,
                Err(e),
            )
        },
        (RestorePhase::LookAbove, RestoreStep::Above(above)) => if above_judged(
            above@,
            0,
            Ok(()),
        ) {
            moves_on(r, p, r.stale@, RestorePhase::ListPaths)
        } else {
            p matches RestoreProgress::Finished(Err(e)) && above_judged(above@, 0, Err(e))
        },
        (RestorePhase::ListPaths, RestoreStep::Paths(Err(e))) => breaks_off(p, e),
        (RestorePhase::ListPaths, RestoreStep::Paths(Ok(present))) => {
            let stale = stale_of(present@, r.stored.entries@);
            moves_on(r, p, stale, removing(stale.len(), n, 0))
        },
        (RestorePhase::Remove(_), RestoreStep::Changed(Err(e))) => breaks_off(p, e),
        (RestorePhase::Remove(i), RestoreStep::Changed(Ok(_))) => moves_on(
            r,
            p,
            r.stale@,
            removing(r.stale@.len(), n, i as nat + 1),
        ),
        (RestorePhase::Write(_), RestoreStep::Changed(Err(e))) => breaks_off(p, e),
        (RestorePhase::Write(i), RestoreStep::Changed(Ok(_))) => moves_on(
            r,
            p,
            r.stale@,
            writing(n, i as nat + 1),
        ),
        (RestorePhase::ReadRevision, RestoreStep::Revision(Err(e))) => breaks_off(p, e),
        (RestorePhase::ReadRevision, RestoreStep::Revision(Ok(revision))) => if revision.0@
            == r.stored.checkpoint.revision.0@ {
            p == RestoreProgress::Finished(Ok(revision))
        } else {
            p matches RestoreProgress::Finished(Err(
                CheckpointError::RevisionMismatch { expected, actual },
            )) && expected == r.stored.checkpoint.revision && actual == revision
        },
        _ => true,
    }
}

impl Restoration {
    /// Whether a phase that is about a path or an entry has one.
    pub open spec fn wf(self) -> bool {
        match self.phase {
            RestorePhase::Remove(i) => i < self.stale@.len(),
            RestorePhase::Write(i) => i < self.stored.entries@.len(),
            _ => true,
        }
    }

    fn paths(&self) -> (r: Vec<String>)
        ensures
            r@ == entry_paths(self.stored.entries@),
    {
        let mut out: Vec<String> = Vec::new();
        let ghost all = entry_paths(self.stored.entries@);
        let mut i: usize = 0;
        while i < self.stored.entries.len()
            invariant
                i <= self.stored.entries.len(),
                all == entry_paths(self.stored.entries@),
                out@ == all.take(i as int),
            decreases self.stored.entries.len() - i,
        {
            out.push(self.stored.entries[i].manifest.path.clone());
            proof {
                assert(all.take(i + 1) =~= all.take(i as int).push(all[i as int]));
            }
            i = i + 1;
        }
        proof {
            assert(all.take(i as int) =~= all);
        }
        out
    }

    /// What follows from the result of the present step. An error ends the
    /// restore.
    pub fn next(self, step: RestoreStep) -> (p: RestoreProgress)
        requires
            self.wf(),
            suits(self, step),
        ensures
            ensues(self, step, p),
            p matches RestoreProgress::Continue(n) ==> n.wf(),
    {
        let entries: usize = self.stored.entries.len();
        match (self.phase, step) {
            (RestorePhase::ReadBlobs, RestoreStep::Blobs(blobs)) => {
                let verdict = validate_blobs(
                    self.dir.as_str(),
                    &self.stored.entries,
                    &blobs,
                    self.byte_cap,
                );
                match verdict {
                    Ok(u) => {
                        proof {
                            assert(u == ());
                        }
                        self.at(RestorePhase::LookAbove)
                    },
                    Err(e) => {
                        proof {
                            lemma_one_blob_verdict(
                                self.dir@,
                                self.stored.entries@,
                                blobs@,
                                self.byte_cap,
                                0,
                                0,
                                e,
                            );
                        }
                        RestoreProgress::Finished(Err(e))
                    },
                }
            },
            (RestorePhase::LookAbove, RestoreStep::Above(above)) => {
                match judge_above(&above) {
                    Ok(u) => {
                        proof {
                            assert(u == ());
                        }
                        self.at(RestorePhase::ListPaths)
                    },
                    Err(e) => {
                        proof {
                            lemma_one_above_verdict(above@, 0, e);
                        }
                        RestoreProgress::Finished(Err(e))
                    },
                }
            },
            (RestorePhase::ListPaths, RestoreStep::Paths(listed)) => {
                match listed {
                    Err(e) => RestoreProgress::Finished(Err(e)),
                    Ok(present) => {
                        let desired = self.paths();
                        let stale = stale_paths(&present, &desired);
                        let count: usize = stale.len();
                        let phase = phase_removing(count, entries, 0);
                        let Restoration { workspace, dir, byte_cap, stored, stale: _, phase: _ } =
                            self;
                        RestoreProgress::Continue(
                            Restoration { workspace, dir, byte_cap, stored, stale, phase },
                        )
                    },
                }
            },
            (RestorePhase::Remove(i), RestoreStep::Changed(done)) => {
                match done {
                    Err(e) => RestoreProgress::Finished(Err(e)),
                    Ok(_) => {
                        let phase = phase_removing(self.stale.len(), entries, i + 1);
                        self.at(phase)
                    },
                }
            },
            (RestorePhase::Write(i), RestoreStep::Changed(done)) => {
                match done {
                    Err(e) => RestoreProgress::Finished(Err(e)),
                    Ok(_) => {
                        let phase = phase_writing(entries, i + 1);
                        self.at(phase)
                    },
                }
            },
            (RestorePhase::ReadRevision, RestoreStep::Revision(found)) => {
                match found {
                    Err(e) => RestoreProgress::Finished(Err(e)),
                    Ok(revision) => {
                        if revision.same(&self.stored.checkpoint.revision) {
                            RestoreProgress::Finished(Ok(revision))
                        } else {
                            RestoreProgress::Finished(
                                Err(
                                    CheckpointError::RevisionMismatch {
                                        expected: self.stored.checkpoint.revision,
                                        actual: revision,
                                    },
                                ),
                            )
                        }
                    },
                }
            },
            _ => RestoreProgress::Continue(self),
        }
    }

    fn at(self, phase: RestorePhase) -> (p: RestoreProgress)
        ensures
            moves_on(self, p, self.stale@, phase),
    {
        let Restoration { workspace, dir, byte_cap, stored, stale, phase: _ } = self;
        RestoreProgress::Continue(Restoration { workspace, dir, byte_cap, stored, stale, phase })
    }
}

fn phase_writing(entries: usize, i: usize) -> (r: RestorePhase)
    ensures
        r == writing(entries as nat, i as nat),
{
    if i < entries {
        RestorePhase::Write(i)
    } else {
        RestorePhase::ReadRevision
    }
}

fn phase_removing(stale: usize, entries: usize, i: usize) -> (r: RestorePhase)
    ensures
        r == removing(stale as nat, entries as nat, i as nat),
{
    if i < stale {
        RestorePhase::Remove(i)
    } else {
        phase_writing(entries, 0)
    }
}

proof fn lemma_one_above_verdict(above: Seq<Above>, i: int, e: CheckpointError)
    requires
        above_judged(above, i, Err(e)),
    ensures
        !above_judged(above, i, Ok(())),
    decreases above.len() - i,
{
    if 0 <= i < above.len() && ancestors_judged(
        above[i].ancestors@,
        above[i].found@,
        0,
        Ok(()),
    ) {
        lemma_one_above_verdict(above, i + 1, e);
    }
}

/// Whether the workspace is changed in a phase.
pub open spec fn changes(phase: RestorePhase) -> bool {
    phase is Remove || phase is Write
}

/// Nothing in the workspace is changed before every check passed: what changes
/// it follows only on the listing of its paths, that on the look above every
/// path, and that on the blobs, each of them where it found no fault.
pub proof fn law_restore_checks_before_it_changes(
    r: Restoration,
    step: RestoreStep,
    n: Restoration,
)
    requires
        suits(r, step),
        ensues(r, step, RestoreProgress::Continue(n)),
    ensures
        changes(n.phase) ==> changes(r.phase) || r.phase is ListPaths,
        n.phase is ListPaths ==> r.phase is LookAbove && (step matches RestoreStep::Above(above)
            && above_judged(above@, 0, Ok(()))),
        n.phase is LookAbove ==> r.phase is ReadBlobs && (step matches RestoreStep::Blobs(blobs)
            && blobs_judged(r.dir@, r.stored.entries@, blobs@, r.byte_cap, 0, 0, Ok(()))),
{
}

/// A restore succeeds only where the workspace then stands at the revision of
/// the checkpoint.
pub proof fn law_restored_workspaces_stand_at_the_checkpoint(
    r: Restoration,
    step: RestoreStep,
    revision: RevisionId,
)
    requires
        suits(r, step),
        ensues(r, step, RestoreProgress::Finished(Ok(revision))),
    ensures
        r.phase is ReadRevision,
        revision.0@ == r.stored.checkpoint.revision.0@,
{
}

} // verus!
