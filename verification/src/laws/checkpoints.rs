//! What a checkpoint records, and how a restore that nothing disturbs goes.
use vstd::prelude::*;
use crate::checkpoint::{ancestors_judged, blob_matches, blobs_judged, is_record, total_size, Checkpoint, CheckpointBackend, CheckpointError, CheckpointStore, ManifestEntry, MetadataProbe, StoredCheckpoint, StoredEntry};
use crate::digest::sha256_hex;
use crate::identity::{CheckpointId, PreludeId, RevisionId, TaskId};
use crate::restore::{above_judged, ensues, entry_paths, stale_of, suits, Above, Restoration, RestorePhase, RestoreProgress, RestoreStep};
use crate::paths::{components, holds, lemma_components_below, Component, EntryProbe};
use crate::text::{decimal, hex, hex_digit, lemma_decimal_digits, lemma_decimal_injective};

verus! {

/// The number of texts of hexadecimal digits of a width.
pub open spec fn hex_range(width: nat) -> nat
    decreases width,
{
    if width == 0 {
        1
    } else {
        16 * hex_range((width - 1) as nat)
    }
}

/// Numbers that fit a width are told apart by their hexadecimal digits.
pub proof fn law_hexadecimal_digits_tell_numbers_apart(a: nat, b: nat, width: nat)
    requires
        a < hex_range(width),
        b < hex_range(width),
    ensures
        hex(a, width) == hex(b, width) <==> a == b,
        hex(a, width).len() == width,
    decreases width,
{
    if width > 0 {
        let w = (width - 1) as nat;
        law_hexadecimal_digits_tell_numbers_apart(a / 16, b / 16, w);
        let x = hex(a, width);
        let y = hex(b, width);
        assert(x.last() == hex_digit(a % 16));
        assert(y.last() == hex_digit(b % 16));
        assert(x.drop_last() =~= hex(a / 16, w));
        assert(y.drop_last() =~= hex(b / 16, w));
        assert(hex_digit(a % 16) == hex_digit(b % 16) ==> a % 16 == b % 16);
    }
}

proof fn lemma_sixteen_digits()
    ensures
        hex_range(16) == 0x1_0000_0000_0000_0000,
{
    reveal_with_fuel(hex_range, 17);
}

/// A checkpoint is recorded under its number, its task and its prelude, at its
/// revision and its head, with every entry of the workspace, and no two entries
/// share a blob.
pub proof fn law_a_checkpoint_records_every_entry(
    r: StoredCheckpoint,
    task_id: TaskId,
    id: CheckpointId,
    revision: RevisionId,
    head: Option<String>,
    tree: String,
    prelude: Option<PreludeId>,
    entries: Seq<ManifestEntry>,
    i: int,
    j: int,
)
    requires
        is_record(r, task_id, id, revision, head, tree, prelude, entries),
    ensures
        r.checkpoint.id == id,
        r.checkpoint.revision.0@ == revision.0@,
        r.task_id == task_id,
        r.head == head,
        r.prelude == prelude,
        r.checkpoint.backend is Git <==> head is Some,
        head is Some ==> r.checkpoint.backend == (CheckpointBackend::Git { tree }),
        r.entries@.len() == entries.len(),
        0 <= i < entries.len() ==> r.entries@[i].manifest == entries[i],
        0 <= i < j < entries.len() && entries.len() <= u64::MAX ==> r.entries@[i].blob@
            != r.entries@[j].blob@,
{
    if 0 <= i < entries.len() {
        assert(r.entries@[i].manifest == entries[i]);
    }
    if 0 <= i < j < entries.len() && entries.len() <= u64::MAX {
        lemma_sixteen_digits();
        law_hexadecimal_digits_tell_numbers_apart(i as nat, j as nat, 16);
        assert(r.entries@[j].manifest == entries[j]);
    }
}

/// The size of a workspace is that of all its entries.
pub proof fn law_the_size_is_that_of_all_entries(
    entries: Seq<ManifestEntry>,
    entry: ManifestEntry,
    i: int,
)
    ensures
        total_size(Seq::empty()) == 0,
        total_size(entries.push(entry)) == total_size(entries) + entry.size,
        0 <= i < entries.len() ==> entries[i].size <= total_size(entries),
    decreases entries.len(),
{
    assert(entries.push(entry).drop_last() =~= entries);
    if 0 <= i < entries.len() - 1 {
        law_the_size_is_that_of_all_entries(entries.drop_last(), entry, i);
    }
}

/// A checkpoint of a repository is restored only at the commit it was made at.
pub proof fn law_a_checkpoint_stays_at_its_commit(stored: StoredCheckpoint, actual: Seq<char>)
    ensures
        stored.head is None ==> !CheckpointStore::head_moved(stored, actual),
        stored.head matches Some(expected) ==> (CheckpointStore::head_moved(stored, actual)
            <==> expected@ != actual),
{
}

/// A restore may begin exactly where the checkpoint is the task's own, the handle
/// is the recorded one, the prelude is the same, and the repository stands at the
/// same commit.
pub proof fn law_a_restore_begins_where_all_agrees(
    store: CheckpointStore,
    task_id: TaskId,
    handle: Checkpoint,
    stored: StoredCheckpoint,
    active: Option<PreludeId>,
    actual_head: Seq<char>,
    r: Result<StoredCheckpoint, CheckpointError>,
)
    requires
        store.restore_judged(
            task_id,
            handle,
            MetadataProbe::Stored(stored),
            active,
            actual_head,
            r,
        ),
    ensures
        r is Ok <==> {
            &&& stored.task_id == task_id
            &&& stored.checkpoint.id == handle.id
            &&& stored.checkpoint.revision.0@ == handle.revision.0@
            &&& match (stored.checkpoint.backend, handle.backend) {
                (CheckpointBackend::Git { tree: a }, CheckpointBackend::Git { tree: b }) => a@
                    == b@,
                (CheckpointBackend::Filesystem, CheckpointBackend::Filesystem) => true,
                _ => false,
            }
            &&& match (stored.prelude, active) {
                (Some(then), Some(now)) => then.0@ == now.0@,
                (None, None) => true,
                _ => false,
            }
            &&& stored.head matches Some(expected) ==> expected@ == actual_head
        },
        r matches Ok(found) ==> found == stored,
{
}

/// A blob is intact where it has the size and the hash that were recorded.
pub proof fn law_an_intact_blob_has_its_hash(entry: StoredEntry, bytes: Seq<u8>)
    ensures
        blob_matches(entry, bytes) <==> bytes.len() == entry.manifest.size && sha256_hex(bytes)
            == entry.manifest.content_hash@,
{
}

/// Nothing is restored below anything but a real directory.
pub proof fn law_no_restore_below_a_link(
    ancestors: Seq<String>,
    found: Seq<EntryProbe>,
    i: int,
    n: int,
    r: Result<(), CheckpointError>,
)
    requires
        found.len() == ancestors.len(),
        ancestors_judged(ancestors, found, i, r),
        0 <= i <= n <= ancestors.len(),
        forall|j: int| i <= j < n ==> (#[trigger] found[j]) is Directory,
    ensures
        n < ancestors.len() && (found[n] is Symlink || found[n] is Other) ==> (r matches Err(
            CheckpointError::InvalidCheckpoint { path, .. },
        ) && path == ancestors[n]),
        n < ancestors.len() && found[n] is Unreadable ==> (r matches Err(
            CheckpointError::Io { path, .. },
        ) && path == ancestors[n]),
        n == ancestors.len() || found[n] is Missing ==> r is Ok,
    decreases n - i,
{
    if i < n {
        assert(found[i] is Directory);
        law_no_restore_below_a_link(ancestors, found, i + 1, n, r);
    }
}

/// A restore that finds nothing amiss goes on: from the blobs to what stands above
/// the paths, from there to the listing, then to the removals and the writes, one
/// after the other, and from the last to the revision.
pub proof fn law_a_restore_goes_on_where_nothing_is_amiss(
    r: Restoration,
    step: RestoreStep,
    p: RestoreProgress,
    above: Vec<Above>,
    present: Vec<String>,
    i: usize,
)
    requires
        suits(r, step),
        ensues(r, step, p),
    ensures
        r.phase is LookAbove && step == RestoreStep::Above(above) && above_judged(
            above@,
            0,
            Ok(()),
        ) ==> (p matches RestoreProgress::Continue(n) && n.phase is ListPaths),
        r.phase is ListPaths && step == RestoreStep::Paths(Ok(present)) ==> (p matches
            RestoreProgress::Continue(n) && n.stale@ == stale_of(
            present@,
            r.stored.entries@,
        )),
        r.phase == RestorePhase::Remove(i) && step == RestoreStep::Changed(Ok(())) && i + 1
            < r.stale@.len() && r.stale@.len() <= usize::MAX ==> (p matches
            RestoreProgress::Continue(n) && n.phase == RestorePhase::Remove((i + 1) as usize)),
        r.phase == RestorePhase::Remove(i) && step == RestoreStep::Changed(Ok(())) && i + 1
            == r.stale@.len() && r.stored.entries@.len() > 0 ==> (p matches
            RestoreProgress::Continue(n) && n.phase == RestorePhase::Write(0)),
        r.phase == RestorePhase::Write(i) && step == RestoreStep::Changed(Ok(())) && i + 1
            < r.stored.entries@.len() && r.stored.entries@.len() <= usize::MAX ==> (p matches
            RestoreProgress::Continue(n) && n.phase == RestorePhase::Write((i + 1) as usize)),
        r.phase == RestorePhase::Write(i) && step == RestoreStep::Changed(Ok(())) && i + 1
            == r.stored.entries@.len() ==> (p matches RestoreProgress::Continue(n)
            && n.phase is ReadRevision),
        p matches RestoreProgress::Continue(n) ==> n.stored == r.stored && n.workspace
            == r.workspace && n.dir == r.dir && (r.phase is ListPaths || n.stale@ == r.stale@),
{
}

/// Blobs that are all intact, and fit the limit together, take a restore on.
pub proof fn law_intact_blobs_take_a_restore_on(
    r: Restoration,
    blobs: Vec<crate::checkpoint::BlobProbe>,
    p: RestoreProgress,
)
    requires
        r.phase is ReadBlobs,
        ensues(r, RestoreStep::Blobs(blobs), p),
        blobs_judged(r.dir@, r.stored.entries@, blobs@, r.byte_cap, 0, 0, Ok(())),
    ensures
        p matches RestoreProgress::Continue(n) && n.phase is LookAbove && n.stored == r.stored,
{
}

/// A restore ends well exactly where the workspace then stands at the recorded
/// revision.
pub proof fn law_a_restore_ends_at_its_revision(
    r: Restoration,
    found: RevisionId,
    p: RestoreProgress,
)
    requires
        r.phase is ReadRevision,
        ensues(r, RestoreStep::Revision(Ok(found)), p),
    ensures
        found.0@ == r.stored.checkpoint.revision.0@ ==> p == RestoreProgress::Finished(Ok(found)),
        found.0@ != r.stored.checkpoint.revision.0@ ==> (p matches RestoreProgress::Finished(Err(
            CheckpointError::RevisionMismatch { expected, actual },
        )) && expected == r.stored.checkpoint.revision && actual == found),
{
}

/// The error of a step that failed is the error of the restore.
pub proof fn law_the_error_of_a_restore_is_that_of_its_step(
    r: Restoration,
    error: CheckpointError,
    p: RestoreProgress,
)
    ensures
        r.phase is ListPaths && ensues(r, RestoreStep::Paths(Err(error)), p) ==> p
            == RestoreProgress::Finished(Err(error)),
        r.phase is Remove && ensues(r, RestoreStep::Changed(Err(error)), p) ==> p
            == RestoreProgress::Finished(Err(error)),
        r.phase is Write && ensues(r, RestoreStep::Changed(Err(error)), p) ==> p
            == RestoreProgress::Finished(Err(error)),
        r.phase is ReadRevision && ensues(r, RestoreStep::Revision(Err(error)), p) ==> p
            == RestoreProgress::Finished(Err(error)),
{
}

/// What is removed is every present path that the checkpoint does not hold, and
/// no other; what is written is every path that it holds.
pub proof fn law_only_what_is_not_held_is_removed(
    present: Seq<String>,
    entries: Seq<StoredEntry>,
    i: int,
    k: int,
)
    ensures
        0 <= i < present.len() && !holds(entry_paths(entries), components(present[i]@)) ==> stale_of(
            present,
            entries,
        ).contains(present[i]),
        0 <= k < stale_of(present, entries).len() ==> present.contains(
            stale_of(present, entries)[k],
        ) && !holds(entry_paths(entries), components(stale_of(present, entries)[k]@)),
        entry_paths(entries).len() == entries.len(),
        0 <= i < entries.len() ==> entry_paths(entries)[i] == entries[i].manifest.path,
{
    let stale = |p: String| !holds(entry_paths(entries), components(p@));
    if 0 <= i < present.len() && stale(present[i]) {
        present.lemma_filter_contains(stale, i);
    }
    if 0 <= k < present.filter(stale).len() {
        present.lemma_filter_pred(stale, k);
        present.lemma_filter_contains_rev(stale, present.filter(stale)[k]);
    }
}

/// Every checkpoint of every task has a place of its own, and what belongs to it
/// lies below that.
pub proof fn law_checkpoints_lie_apart(
    store: CheckpointStore,
    task: TaskId,
    id: CheckpointId,
    other_task: TaskId,
    other: CheckpointId,
)
    ensures
        components(store.place(task, id)) == components(store.place(other_task, other)) <==> task
            == other_task && id == other,
        components(store.metadata_place(task, id)) == components(store.place(task, id)).push(
            Component::Normal("checkpoint.json"@),
        ),
{
    let a = decimal(task.0 as nat);
    let b = decimal(id.0 as nat);
    let c = decimal(other_task.0 as nat);
    let d = decimal(other.0 as nat);
    lemma_number_name(task.0 as nat);
    lemma_number_name(id.0 as nat);
    lemma_number_name(other_task.0 as nat);
    lemma_number_name(other.0 as nat);
    lemma_components_below(store.root@, a);
    lemma_components_below(store.root@, c);
    lemma_components_below(store.task_place(task), b);
    lemma_components_below(store.task_place(other_task), d);
    let root = components(store.root@);
    let x = components(store.place(task, id));
    let y = components(store.place(other_task, other));
    let n = root.len() as int;
    assert(x[n] == Component::Normal(a) && x[n + 1] == Component::Normal(b));
    assert(y[n] == Component::Normal(c) && y[n + 1] == Component::Normal(d));
    if x == y {
        lemma_decimal_injective(task.0 as nat, other_task.0 as nat);
        lemma_decimal_injective(id.0 as nat, other.0 as nat);
    }
    reveal_strlit("checkpoint.json");
    reveal_strlit(".");
    reveal_strlit("..");
    assert("checkpoint.json"@.len() == 15 && "."@.len() == 1 && ".."@.len() == 2);
    assert(!"checkpoint.json"@.contains('/'));
    lemma_components_below(store.place(task, id), "checkpoint.json"@);
}

proof fn lemma_number_name(n: nat)
    ensures
        decimal(n).len() > 0,
        !decimal(n).contains('/'),
        decimal(n) != "."@,
        decimal(n) != ".."@,
{
    reveal_strlit(".");
    reveal_strlit("..");
    lemma_decimal_digits(n);
    let number = decimal(n);
    assert('0' <= number[0]);
    if number.contains('/') {
        let i = choose|i: int| 0 <= i < number.len() && number[i] == '/';
        assert('0' <= number[i]);
    }
}

} // verus!
