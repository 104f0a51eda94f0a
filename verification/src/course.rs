//! A restore from its first step to its last, and what it leaves in the
//! workspace.
use vstd::prelude::*;
use crate::checkpoint::{blob_matches, is_record, law_valid_blobs_are_intact, BlobProbe, Checkpoint, CheckpointError, CheckpointStore, EntryKind, ManifestEntry, MetadataProbe, StoredCheckpoint, StoredEntry};
use crate::digest::sha256_hex;
use crate::identity::{CheckpointId, PreludeId, RevisionId, TaskId};
use crate::paths::{components, holds, Component};
use crate::restore::{ensues, entry_paths, stale_of, suits, Restoration, RestorePhase, RestoreProgress, RestoreStep};
use crate::rollback::{emptied, is_tree, law_restore_brings_back_the_checkpoint, refilled, with_file, without};

verus! {

/// What stands at a path of a workspace.
#[verifier::ext_equal]
pub struct Held {
    pub kind: EntryKind,
    pub executable: bool,
    pub bytes: Seq<u8>,
}

/// An entry that holds the given bytes.
pub open spec fn held_by(entry: ManifestEntry, bytes: Seq<u8>) -> Held {
    Held { kind: entry.kind, executable: entry.executable, bytes }
}

/// Whether the entries describe the files of a workspace, with these contents:
/// each file has an entry, and each entry has the kind, the executable bit, the
/// size and the hash of the file at its path.
pub open spec fn captured(
    entries: Seq<ManifestEntry>,
    contents: Seq<Seq<u8>>,
    files: Map<Seq<Component>, Held>,
) -> bool {
    &&& contents.len() == entries.len()
    &&& forall|i: int|
        0 <= i < entries.len() ==> files.contains_pair(
            components((#[trigger] entries[i]).path@),
            held_by(entries[i], contents[i]),
        ) && sha256_hex(contents[i]) == entries[i].content_hash@ && contents[i].len()
            == entries[i].size
    &&& forall|k: Seq<Component>| #[trigger]
        files.contains_key(k) ==> exists|i: int|
            0 <= i < entries.len() && components((#[trigger] entries[i]).path@) == k
}

/// One moment of a restore: where it stands, what its step comes to, and the
/// files of the workspace before that step.
pub struct RestoreMoment {
    pub at: Restoration,
    pub step: RestoreStep,
    pub files: Map<Seq<Component>, Held>,
}

/// Whether the step of a moment reports things as they are: the blobs hold these
/// contents, and the paths that are listed are those of the files.
pub open spec fn is_true(moment: RestoreMoment, blobs: Seq<Seq<u8>>) -> bool {
    match moment.step {
        RestoreStep::Blobs(found) => forall|i: int|
            0 <= i < found@.len() ==> ((#[trigger] found@[i]) matches BlobProbe::Bytes(bytes)
                ==> bytes@ == blobs[i]),
        RestoreStep::Paths(Ok(present)) => forall|k: Seq<Component>| #[trigger]
            holds(present@, k) <==> moment.files.contains_key(k),
        _ => true,
    }
}

/// Whether these are the files after the step of a moment. A removal takes away
/// what stands at its path, a write puts the content of a blob there, and no
/// other step changes anything. Of a change that fails nothing is said.
pub open spec fn leaves(
    moment: RestoreMoment,
    blobs: Seq<Seq<u8>>,
    files: Map<Seq<Component>, Held>,
) -> bool {
    match (moment.at.phase, moment.step) {
        (RestorePhase::Remove(i), RestoreStep::Changed(Ok(_))) => files == without(
            moment.files,
            components(moment.at.stale@[i as int]@),
        ),
        (RestorePhase::Write(i), RestoreStep::Changed(Ok(_))) => {
            let entry = moment.at.stored.entries@[i as int].manifest;
            files == with_file(
                moment.files,
                components(entry.path@),
                held_by(entry, blobs[i as int]),
            )
        },
        (RestorePhase::Remove(_), _) => true,
        (RestorePhase::Write(_), _) => true,
        _ => files == moment.files,
    }
}

/// Whether a restore took this course, left these files and ended so.
pub open spec fn took(
    course: Seq<RestoreMoment>,
    blobs: Seq<Seq<u8>>,
    files: Map<Seq<Component>, Held>,
    end: Result<RevisionId, CheckpointError>,
) -> bool {
    &&& course.len() > 0
    &&& forall|i: int|
        0 <= i < course.len() ==> suits((#[trigger] course[i]).at, course[i].step) && is_true(
            course[i],
            blobs,
        )
    &&& forall|i: int|
        #![trigger course[i]]
        0 <= i < course.len() - 1 ==> ensues(
            course[i].at,
            course[i].step,
            RestoreProgress::Continue(course[i + 1].at),
        ) && leaves(course[i], blobs, course[i + 1].files)
    &&& ensues(course.last().at, course.last().step, RestoreProgress::Finished(end))
    &&& leaves(course.last(), blobs, files)
}

/// Whether a restore of the handle, with the blobs holding these contents, turned
/// the files `before` into the files `after` and ended so. One that is refused at
/// the start takes no step.
pub open spec fn restored(
    store: CheckpointStore,
    task_id: TaskId,
    handle: Checkpoint,
    probe: MetadataProbe,
    active: Option<PreludeId>,
    actual_head: Seq<char>,
    blobs: Seq<Seq<u8>>,
    course: Seq<RestoreMoment>,
    before: Map<Seq<Component>, Held>,
    after: Map<Seq<Component>, Held>,
    end: Result<RevisionId, CheckpointError>,
) -> bool {
    if course.len() == 0 {
        &&& end matches Err(e) && store.restore_begun(
            task_id,
            handle,
            probe,
            active,
            actual_head,
            Err(e),
        )
        &&& after == before
    } else {
        &&& store.restore_begun(task_id, handle, probe, active, actual_head, Ok(course[0].at))
        &&& course[0].files == before
        &&& took(course, blobs, after, end)
    }
}

/// What holds at a moment of a restore that began with the files `before`, where
/// `saved` is what its entries describe.
spec fn stands(
    moment: RestoreMoment,
    first: Restoration,
    blobs: Seq<Seq<u8>>,
    before: Map<Seq<Component>, Held>,
    saved: Map<Seq<Component>, Held>,
) -> bool {
    let at = moment.at;
    let entries = first.stored.entries@;
    let desired = entry_paths(entries);
    let bare = emptied(before, at.stale@);
    &&& at.stored == first.stored
    &&& match at.phase {
        RestorePhase::ReadBlobs => moment.files == before,
        RestorePhase::LookAbove => moment.files == before && intact(first, blobs),
        RestorePhase::ListPaths => moment.files == before && intact(first, blobs),
        RestorePhase::Remove(i) => {
            &&& intact(first, blobs)
            &&& listed(before, entries, at.stale@)
            &&& i < at.stale@.len()
            &&& moment.files == emptied(before, at.stale@.take(i as int))
        },
        RestorePhase::Write(i) => {
            &&& intact(first, blobs)
            &&& listed(before, entries, at.stale@)
            &&& i < entries.len()
            &&& moment.files == refilled(bare, saved, desired.take(i as int))
        },
        RestorePhase::ReadRevision => {
            &&& listed(before, entries, at.stale@)
            &&& moment.files == refilled(bare, saved, desired)
        },
    }
}

/// Whether every blob holds what its entry says.
spec fn intact(first: Restoration, blobs: Seq<Seq<u8>>) -> bool {
    forall|i: int|
        0 <= i < first.stored.entries@.len() ==> blob_matches(
            #[trigger] first.stored.entries@[i],
            blobs[i],
        )
}

/// Whether the stale paths come of a listing of these files.
spec fn listed(
    files: Map<Seq<Component>, Held>,
    entries: Seq<StoredEntry>,
    stale: Seq<String>,
) -> bool {
    exists|present: Seq<String>| #[trigger] stale_of(present, entries) == stale && lists(
        present,
        files,
    )
}

/// Whether the paths are those of the files.
spec fn lists(present: Seq<String>, files: Map<Seq<Component>, Held>) -> bool {
    forall|k: Seq<Component>| #[trigger] holds(present, k) <==> files.contains_key(k)
}

proof fn lemma_stands(
    course: Seq<RestoreMoment>,
    blobs: Seq<Seq<u8>>,
    files: Map<Seq<Component>, Held>,
    end: Result<RevisionId, CheckpointError>,
    saved: Map<Seq<Component>, Held>,
    j: int,
)
    requires
        took(course, blobs, files, end),
        course[0].at.phase is ReadBlobs,
        intact(course[0].at, blobs) ==> forall|i: int|
            0 <= i < course[0].at.stored.entries@.len() ==> saved.contains_pair(
                components((#[trigger] course[0].at.stored.entries@[i]).manifest.path@),
                held_by(course[0].at.stored.entries@[i].manifest, blobs[i]),
            ),
        0 <= j < course.len(),
    ensures
        stands(course[j], course[0].at, blobs, course[0].files, saved),
    decreases j,
{
    if j > 0 {
        lemma_stands(course, blobs, files, end, saved, j - 1);
        let first = course[0].at;
        let before = course[0].files;
        let was = course[j - 1];
        let now = course[j];
        let entries = first.stored.entries@;
        let desired = entry_paths(entries);
        assert(suits(was.at, was.step) && is_true(was, blobs));
        assert(now == course[(j - 1) + 1]);
        assert(ensues(was.at, was.step, RestoreProgress::Continue(now.at)));
        assert(leaves(was, blobs, now.files));
        assert(now.at.stale@.len() == now.at.stale.len());
        assert(first.stored.entries@.len() == first.stored.entries.len());
        assert(desired.take(0) =~= Seq::<String>::empty());
        assert(desired.take(desired.len() as int) =~= desired);
        match (was.at.phase, was.step) {
            (RestorePhase::ReadBlobs, RestoreStep::Blobs(found)) => {
                assert forall|i: int| 0 <= i < entries.len() implies blob_matches(
                    #[trigger] entries[i],
                    blobs[i],
                ) by {
                    law_valid_blobs_are_intact(
                        was.at.dir@,
                        entries,
                        found@,
                        was.at.byte_cap,
                        0,
                        0,
                        i,
                    );
                }
            },
            (RestorePhase::ListPaths, RestoreStep::Paths(Ok(present))) => {
                let stale = stale_of(present@, entries);
                assert(lists(present@, before));
                assert(listed(before, entries, stale));
                assert(stale.take(0) =~= Seq::<String>::empty());
                assert(emptied(before, stale.take(0)) == before);
                if stale.len() == 0 {
                    assert(stale =~= Seq::<String>::empty());
                }
            },
            (RestorePhase::Remove(i), RestoreStep::Changed(Ok(_))) => {
                let stale = was.at.stale@;
                let next = stale.take(i + 1);
                assert(next.drop_last() =~= stale.take(i as int));
                assert(next.last() == stale[i as int]);
                assert(now.files == emptied(before, next));
                if i + 1 == stale.len() {
                    assert(next =~= stale);
                }
            },
            (RestorePhase::Write(i), RestoreStep::Changed(Ok(_))) => {
                let bare = emptied(before, was.at.stale@);
                let next = desired.take(i + 1);
                let entry = entries[i as int];
                assert(next.drop_last() =~= desired.take(i as int));
                assert(next.last() == entry.manifest.path);
                assert(saved.contains_pair(
                    components(entry.manifest.path@),
                    held_by(entry.manifest, blobs[i as int]),
                ));
                assert(now.files == refilled(bare, saved, next));
            },
            _ => {},
        }
    }
}

/// A restore that succeeds leaves exactly what its checkpoint captured: every
/// file is back with its kind, its content and its executable bit, whether it was
/// changed or deleted since, no other file is there, and the workspace stands at
/// the revision of the checkpoint. Contents of one size and one hash are taken to
/// be the same.
pub proof fn law_a_restore_leaves_what_was_captured(
    store: CheckpointStore,
    task_id: TaskId,
    id: CheckpointId,
    revision: RevisionId,
    head: Option<String>,
    tree: String,
    prelude: Option<PreludeId>,
    entries: Seq<ManifestEntry>,
    stored: StoredCheckpoint,
    contents: Seq<Seq<u8>>,
    saved: Map<Seq<Component>, Held>,
    handle: Checkpoint,
    active: Option<PreludeId>,
    actual_head: Seq<char>,
    blobs: Seq<Seq<u8>>,
    course: Seq<RestoreMoment>,
    before: Map<Seq<Component>, Held>,
    after: Map<Seq<Component>, Held>,
    found: RevisionId,
)
    requires
        is_record(stored, task_id, id, revision, head, tree, prelude, entries),
        captured(entries, contents, saved),
        is_tree(saved),
        restored(
            store,
            task_id,
            handle,
            MetadataProbe::Stored(stored),
            active,
            actual_head,
            blobs,
            course,
            before,
            after,
            Ok(found),
        ),
        forall|i: int|
            0 <= i < contents.len() && blobs[i].len() == contents[i].len() && sha256_hex(blobs[i])
                == sha256_hex(contents[i]) ==> blobs[i] == #[trigger] contents[i],
    ensures
        after == saved,
        found.0@ == revision.0@,
        handle@ == stored.checkpoint@,
{
    let first = course[0].at;
    let listing = stored.entries@;
    let desired = entry_paths(listing);
    let last = course.len() - 1;
    assert(first.stored == stored);
    if intact(first, blobs) {
        assert forall|i: int| 0 <= i < listing.len() implies saved.contains_pair(
            components((#[trigger] listing[i]).manifest.path@),
            held_by(listing[i].manifest, blobs[i]),
        ) by {
            assert(listing[i].manifest == entries[i]);
            assert(blob_matches(listing[i], blobs[i]));
            assert(blobs[i] == contents[i]);
        }
    }
    lemma_stands(course, blobs, after, Ok(found), saved, last);
    assert(suits(course[last].at, course[last].step));
    let stale = course[last].at.stale@;
    let present = choose|present: Seq<String>| #[trigger]
        stale_of(present, listing) == stale && lists(present, before);
    assert forall|k: Seq<Component>| #[trigger] holds(desired, k) <==> saved.contains_key(k) by {
        if holds(desired, k) {
            let i = choose|i: int|
                0 <= i < desired.len() && components((#[trigger] desired[i])@) == k;
            assert(listing[i].manifest == entries[i]);
            assert(saved.contains_key(components(entries[i].path@)));
        }
        if saved.contains_key(k) {
            let i = choose|i: int|
                0 <= i < entries.len() && components((#[trigger] entries[i]).path@) == k;
            assert(listing[i].manifest == entries[i]);
            assert(desired[i] == entries[i].path);
        }
    }
    law_restore_brings_back_the_checkpoint(before, saved, present, desired);
}

/// A restore that is refused leaves the workspace as it was: nothing is touched
/// for a checkpoint that is not known, for one of another task, for a handle that
/// differs from the recorded one in any field, nor where the restore ends before
/// its first change.
pub proof fn law_a_refused_restore_touches_nothing(
    store: CheckpointStore,
    task_id: TaskId,
    handle: Checkpoint,
    probe: MetadataProbe,
    active: Option<PreludeId>,
    actual_head: Seq<char>,
    blobs: Seq<Seq<u8>>,
    course: Seq<RestoreMoment>,
    before: Map<Seq<Component>, Held>,
    after: Map<Seq<Component>, Held>,
    end: Result<RevisionId, CheckpointError>,
)
    requires
        restored(
            store,
            task_id,
            handle,
            probe,
            active,
            actual_head,
            blobs,
            course,
            before,
            after,
            end,
        ),
    ensures
        match probe {
            MetadataProbe::Missing => after == before && end == Err::<RevisionId, CheckpointError>(
                CheckpointError::NotFound { task_id, checkpoint_id: handle.id },
            ),
            MetadataProbe::Stored(stored) if stored.task_id != task_id => after == before && end
                == Err::<RevisionId, CheckpointError>(
                CheckpointError::TaskMismatch { expected: task_id, actual: stored.task_id },
            ),
            MetadataProbe::Stored(stored) => stored.checkpoint@ != handle@ ==> after == before && (
            end matches Err(e) && e is InvalidCheckpoint),
            _ => after == before && end is Err,
        },
        course.len() == 0 || course.last().at.phase is ReadBlobs
            || course.last().at.phase is LookAbove || course.last().at.phase is ListPaths
            ==> after == before && end is Err,
{
    if course.len() > 0 {
        let last = course.len() - 1;
        lemma_untouched(course, blobs, after, end, last);
        assert(suits(course[last].at, course[last].step));
    }
}

proof fn lemma_untouched(
    course: Seq<RestoreMoment>,
    blobs: Seq<Seq<u8>>,
    files: Map<Seq<Component>, Held>,
    end: Result<RevisionId, CheckpointError>,
    j: int,
)
    requires
        took(course, blobs, files, end),
        course[0].at.phase is ReadBlobs,
        0 <= j < course.len(),
    ensures
        course[j].at.phase is ReadBlobs || course[j].at.phase is LookAbove
            || course[j].at.phase is ListPaths ==> course[j].files == course[0].files,
    decreases j,
{
    if j > 0 {
        lemma_untouched(course, blobs, files, end, j - 1);
        let was = course[j - 1];
        assert(suits(was.at, was.step));
        assert(course[j] == course[(j - 1) + 1]);
        assert(ensues(was.at, was.step, RestoreProgress::Continue(course[j].at)));
        assert(leaves(was, blobs, course[j].files));
    }
}

} // verus!
