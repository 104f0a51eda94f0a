//! What an integration brings into the parent workspace, and when it does not.
use vstd::prelude::*;
use crate::identity::{IsolatedWorkspaceId, RevisionId, TaskId};
use crate::isolation::{blocks, brings_over, conflicts, fits, follows, judged, owned_by, overlaps_any, overlaps_delta, parent_conflicts, Integration, IntegrationPhase, IntegrationProgress, IntegrationResult, IsolatedWorkspaceRecord, IsolationError, IsolationStore, RecordProbe, StepResult, WorkspaceDelta};
use crate::paths::{begins_with, components, holds, lemma_components_below, overlap, Component, EntryProbe};
use crate::ptc::prelude::below;
use crate::rollback::{emptied, is_tree, law_applied_changes_are_the_childs, refilled};

verus! {

/// Every path that was added, modified or deleted is a changed path, and nothing
/// else is.
pub proof fn law_every_change_is_a_changed_path(
    delta: WorkspaceDelta,
    changed: Seq<String>,
    i: int,
    k: Seq<Component>,
)
    requires
        forall|k: Seq<Component>| #[trigger] holds(changed, k) <==> delta.touches(k),
    ensures
        0 <= i < delta.added@.len() ==> holds(changed, components(delta.added@[i]@)),
        0 <= i < delta.modified@.len() ==> holds(changed, components(delta.modified@[i]@)),
        0 <= i < delta.deleted@.len() ==> holds(changed, components(delta.deleted@[i]@)),
        holds(changed, k) ==> holds(delta.added@, k) || holds(delta.modified@, k) || holds(
            delta.deleted@,
            k,
        ),
{
    if 0 <= i < delta.added@.len() {
        assert(holds(delta.added@, components(delta.added@[i]@)));
        assert(delta.touches(components(delta.added@[i]@)));
    }
    if 0 <= i < delta.modified@.len() {
        assert(holds(delta.modified@, components(delta.modified@[i]@)));
        assert(delta.touches(components(delta.modified@[i]@)));
    }
    if 0 <= i < delta.deleted@.len() {
        assert(holds(delta.deleted@, components(delta.deleted@[i]@)));
        assert(delta.touches(components(delta.deleted@[i]@)));
    }
    if holds(changed, k) {
        assert(delta.touches(k));
    }
}

/// A path is held by a list exactly where an element of it has those components.
pub proof fn law_a_list_holds_its_paths(paths: Seq<String>, i: int, k: Seq<Component>)
    ensures
        0 <= i < paths.len() ==> holds(paths, components(paths[i]@)),
        holds(paths, k) ==> exists|j: int|
            0 <= j < paths.len() && components((#[trigger] paths[j])@) == k,
        paths.len() == 0 ==> !holds(paths, k),
{
    if 0 <= i < paths.len() {
        assert(components(paths[i]@) == components(paths[i]@));
    }
}

/// A path overlaps itself, the directory that it lies in and what lies below it.
/// Two names in one directory do not overlap.
pub proof fn law_a_path_overlaps_what_lies_below_it(
    dir: Seq<char>,
    name: Seq<char>,
    other: Seq<char>,
)
    requires
        name.len() > 0,
        !name.contains('/'),
        name != "."@,
        name != ".."@,
        other.len() > 0,
        !other.contains('/'),
        other != "."@,
        other != ".."@,
    ensures
        overlap(dir, dir),
        overlap(dir, below(dir, name)),
        overlap(below(dir, name), dir),
        overlap(below(dir, name), below(dir, other)) <==> name == other,
{
    lemma_components_below(dir, name);
    lemma_components_below(dir, other);
    let d = components(dir);
    let a = components(below(dir, name));
    let b = components(below(dir, other));
    assert(d.take(d.len() as int) =~= d);
    assert(a.take(d.len() as int) =~= d);
    assert(a.take(a.len() as int) =~= a);
    assert(b.take(b.len() as int) =~= b);
    assert(a.last() == Component::Normal(name));
    assert(b.last() == Component::Normal(other));
}

/// Whether an integration that starts so starts as `r` says.
pub open spec fn starts(
    record: IsolatedWorkspaceRecord,
    parent_current: RevisionId,
    parent_delta: WorkspaceDelta,
    r: IntegrationProgress,
) -> bool {
    &&& parent_conflicts(record.changed_paths@, parent_delta) ==> (r matches
        IntegrationProgress::Finished(Ok(IntegrationResult::Conflict {
        child_base,
        parent_current: at,
        paths,
    })) && child_base == record.base_revision && at == parent_current && paths@
        == record.changed_paths@.filter(|p: String| overlaps_delta(p@, parent_delta)))
    &&& !parent_conflicts(record.changed_paths@, parent_delta) ==> (r matches
        IntegrationProgress::Continue(i) && i.record == record && i.previous == parent_current
        && i.phase is ReadChild)
}

/// Where the parent added, modified or deleted a path that overlaps one of the
/// child's, the integration ends in a conflict that lists that path of the child,
/// and nothing is done.
pub proof fn law_both_sides_changing_a_path_is_a_conflict(
    record: IsolatedWorkspaceRecord,
    parent_current: RevisionId,
    parent_delta: WorkspaceDelta,
    r: IntegrationProgress,
    i: int,
    j: int,
)
    requires
        starts(record, parent_current, parent_delta, r),
        0 <= i < record.changed_paths@.len(),
        (0 <= j < parent_delta.added@.len() && overlap(
            record.changed_paths@[i]@,
            parent_delta.added@[j]@,
        )) || (0 <= j < parent_delta.modified@.len() && overlap(
            record.changed_paths@[i]@,
            parent_delta.modified@[j]@,
        )) || (0 <= j < parent_delta.deleted@.len() && overlap(
            record.changed_paths@[i]@,
            parent_delta.deleted@[j]@,
        )),
    ensures
        r matches IntegrationProgress::Finished(Ok(IntegrationResult::Conflict {
            child_base,
            parent_current: at,
            paths,
        })) && child_base == record.base_revision && at == parent_current && paths@.contains(
            record.changed_paths@[i],
        ),
{
    let changed = record.changed_paths@;
    let p = changed[i]@;
    let hit = |p: String| overlaps_delta(p@, parent_delta);
    if 0 <= j < parent_delta.added@.len() && overlap(p, parent_delta.added@[j]@) {
        assert(overlaps_any(p, parent_delta.added@));
    } else if 0 <= j < parent_delta.modified@.len() && overlap(p, parent_delta.modified@[j]@) {
        assert(overlaps_any(p, parent_delta.modified@));
    } else {
        assert(overlaps_any(p, parent_delta.deleted@));
    }
    assert(overlaps_delta(p, parent_delta));
    assert(parent_conflicts(changed, parent_delta));
    changed.lemma_filter_contains(hit, i);
}

/// A conflict lists only paths of the child that the parent changed too: one that
/// is not at, above or below a path the parent touched is not listed, and where
/// there is none to list the integration goes on.
pub proof fn law_a_conflict_is_over_a_path_of_both(
    record: IsolatedWorkspaceRecord,
    parent_current: RevisionId,
    parent_delta: WorkspaceDelta,
    r: IntegrationProgress,
)
    requires
        starts(record, parent_current, parent_delta, r),
    ensures
        match r {
            IntegrationProgress::Finished(Ok(IntegrationResult::Conflict { paths, .. })) => {
                &&& paths@.len() > 0
                &&& forall|m: int|
                    0 <= m < paths@.len() ==> record.changed_paths@.contains(
                        #[trigger] paths@[m],
                    ) && exists|q: String|
                        (parent_delta.added@.contains(q) || parent_delta.modified@.contains(q)
                            || parent_delta.deleted@.contains(q)) && #[trigger] overlap(
                            paths@[m]@,
                            q@,
                        )
            },
            IntegrationProgress::Finished(_) => false,
            IntegrationProgress::Continue(i) => {
                &&& i.record == record
                &&& i.previous == parent_current
                &&& i.phase is ReadChild
                &&& forall|m: int, q: String|
                    0 <= m < record.changed_paths@.len() && (parent_delta.added@.contains(q)
                        || parent_delta.modified@.contains(q) || parent_delta.deleted@.contains(q))
                        ==> !overlap((#[trigger] record.changed_paths@[m])@, #[trigger] q@)
            },
        },
{
    let changed = record.changed_paths@;
    let hit = |p: String| overlaps_delta(p@, parent_delta);
    if parent_conflicts(changed, parent_delta) {
        let paths = changed.filter(hit);
        let k = choose|k: int|
            0 <= k < changed.len() && overlaps_delta((#[trigger] changed[k])@, parent_delta);
        changed.lemma_filter_contains(hit, k);
        assert forall|m: int| 0 <= m < paths.len() implies changed.contains(#[trigger] paths[m])
            && exists|q: String|
            (parent_delta.added@.contains(q) || parent_delta.modified@.contains(q)
                || parent_delta.deleted@.contains(q)) && #[trigger] overlap(paths[m]@, q@) by {
            changed.lemma_filter_pred(hit, m);
            changed.lemma_filter_contains_rev(hit, paths[m]);
            let list = if overlaps_any(paths[m]@, parent_delta.added@) {
                parent_delta.added@
            } else if overlaps_any(paths[m]@, parent_delta.modified@) {
                parent_delta.modified@
            } else {
                parent_delta.deleted@
            };
            let j = choose|j: int|
                0 <= j < list.len() && overlap(paths[m]@, (#[trigger] list[j])@);
            assert(list.contains(list[j]));
        }
    } else {
        assert forall|m: int, q: String|
            0 <= m < changed.len() && (parent_delta.added@.contains(q)
                || parent_delta.modified@.contains(q) || parent_delta.deleted@.contains(
                q,
            )) implies !overlap((#[trigger] changed[m])@, #[trigger] q@) by {
            assert(!overlaps_delta(changed[m]@, parent_delta));
            let list = if parent_delta.added@.contains(q) {
                parent_delta.added@
            } else if parent_delta.modified@.contains(q) {
                parent_delta.modified@
            } else {
                parent_delta.deleted@
            };
            let j = choose|j: int| 0 <= j < list.len() && list[j] == q;
            assert(!overlaps_any(changed[m]@, list));
            assert(!overlap(changed[m]@, list[j]@));
        }
    }
}

/// An integration that nothing disturbs is applied: where the child stands at the
/// revision it was recorded with and every step succeeds, the five steps are
/// taken in order, and the result names the revisions of the parent before and
/// after, and the changed paths.
pub proof fn law_an_undisturbed_integration_is_applied(
    first: Integration,
    child: RevisionId,
    parent: RevisionId,
    a: IntegrationProgress,
    b: IntegrationProgress,
    c: IntegrationProgress,
    d: IntegrationProgress,
    e: IntegrationProgress,
)
    requires
        first.phase is ReadChild,
        child.0@ == first.record.final_revision.0@,
        follows(first, StepResult::Revision(Ok(child)), a),
        a matches IntegrationProgress::Continue(i) ==> follows(i, StepResult::Step(Ok(())), b),
        b matches IntegrationProgress::Continue(i) ==> follows(i, StepResult::Step(Ok(())), c),
        c matches IntegrationProgress::Continue(i) ==> follows(
            i,
            StepResult::Revision(Ok(parent)),
            d,
        ),
        d matches IntegrationProgress::Continue(i) ==> follows(i, StepResult::Step(Ok(())), e),
    ensures
        a matches IntegrationProgress::Continue(i) && i.phase is Prepare,
        b matches IntegrationProgress::Continue(i) && i.phase is Apply,
        c matches IntegrationProgress::Continue(i) && i.phase is ReadParent,
        d matches IntegrationProgress::Continue(i) && i.phase is Discard,
        e matches IntegrationProgress::Finished(Ok(IntegrationResult::Applied {
            previous_revision,
            current_revision,
            changed_paths,
        })) && previous_revision == first.previous && current_revision == parent && changed_paths
            == first.record.changed_paths,
{
}

/// A child that moved on since it was recorded is not integrated: the parent is
/// not touched, and the error names both revisions.
pub proof fn law_a_child_that_moved_is_not_integrated(
    first: Integration,
    child: RevisionId,
    p: IntegrationProgress,
)
    requires
        first.phase is ReadChild,
        child.0@ != first.record.final_revision.0@,
        follows(first, StepResult::Revision(Ok(child)), p),
    ensures
        p matches IntegrationProgress::Finished(Err(IsolationError::RevisionMismatch {
            path,
            expected,
            actual,
        })) && path == first.record.path && expected == first.record.final_revision && actual
            == child,
{
}

/// The error that stopped an integration is the one that is reported, after the
/// parent was put back where it was written. Only where neither the removal of
/// the workspace nor putting the parent back succeeded are two reported as one.
pub proof fn law_the_error_that_stopped_it_is_reported(
    at: Integration,
    result: StepResult,
    error: IsolationError,
    p: IntegrationProgress,
    back: Result<(), IsolationError>,
    q: IntegrationProgress,
)
    requires
        fits(at.phase, result),
        !(at.phase is RollBack),
        result == StepResult::Step(Err(error)) || result == StepResult::Revision(Err(error)),
        follows(at, result, p),
        p matches IntegrationProgress::Continue(i) ==> follows(i, StepResult::Step(back), q),
    ensures
        at.phase is ReadChild || at.phase is Prepare ==> p == IntegrationProgress::Finished(
            Err(error),
        ),
        at.phase is Apply || at.phase is ReadParent || at.phase is Discard ==> (p matches
            IntegrationProgress::Continue(i) && i.phase is RollBack && i.record == at.record),
        (at.phase is Apply || at.phase is ReadParent) ==> q == IntegrationProgress::Finished(
            Err(error),
        ),
        at.phase is Discard && back is Ok ==> q == IntegrationProgress::Finished(Err(error)),
        at.phase is Discard && back is Err ==> (q matches IntegrationProgress::Finished(Err(
            IsolationError::InvalidRecord { .. },
        ))),
{
    match back {
        Ok(u) => {
            assert(u == ());
        },
        Err(_) => {},
    }
}

/// Nothing is written below a symbolic link: where every directory above it is a
/// real one, a destination below a link is refused, and the refusal names the
/// link. Real directories all the way down are fine.
pub proof fn law_no_destination_lies_below_a_link(
    ancestors: Seq<String>,
    found: Seq<EntryProbe>,
    i: int,
    n: int,
    r: Result<(), IsolationError>,
)
    requires
        found.len() == ancestors.len(),
        judged(ancestors, found, i, r),
        0 <= i <= n <= ancestors.len(),
        forall|j: int| i <= j < n ==> (#[trigger] found[j]) is Directory,
    ensures
        n < ancestors.len() && found[n] is Symlink ==> (r matches Err(
            IsolationError::InvalidRecord { path, message },
        ) && path == ancestors[n]),
        n < ancestors.len() && found[n] is Unreadable ==> (r matches Err(
            IsolationError::Io { path, .. },
        ) && path == ancestors[n]),
        n == ancestors.len() || found[n] is Missing || found[n] is Other ==> r is Ok,
    decreases n - i,
{
    if i < n {
        assert(found[i] is Directory);
        law_no_destination_lies_below_a_link(ancestors, found, i + 1, n, r);
    }
}

/// The clean-up after a task takes the workspaces that the task owns, each of
/// them and no other. A record that has gone does not stop it; any other that
/// cannot be read does.
pub proof fn law_a_clean_up_takes_what_the_task_owns(
    loaded: Seq<Result<IsolatedWorkspaceRecord, IsolationError>>,
    task: TaskId,
    i: int,
    m: int,
)
    ensures
        0 <= i < loaded.len() && (loaded[i] matches Ok(record) && record.owner_task_id == task)
            ==> loaded.filter(
            |l: Result<IsolatedWorkspaceRecord, IsolationError>| owned_by(l, task),
        ).contains(loaded[i]),
        0 <= m < loaded.filter(
            |l: Result<IsolatedWorkspaceRecord, IsolationError>| owned_by(l, task),
        ).len() ==> (loaded.filter(
            |l: Result<IsolatedWorkspaceRecord, IsolationError>| owned_by(l, task),
        )[m] matches Ok(record) && record.owner_task_id == task),
        0 <= i < loaded.len() ==> (blocks(loaded[i]) <==> match loaded[i] {
            Ok(_) => false,
            Err(IsolationError::NotFound(_)) => false,
            Err(_) => true,
        }),
{
    let mine = |l: Result<IsolatedWorkspaceRecord, IsolationError>| owned_by(l, task);
    if 0 <= i < loaded.len() && mine(loaded[i]) {
        loaded.lemma_filter_contains(mine, i);
    }
    if 0 <= m < loaded.filter(mine).len() {
        loaded.lemma_filter_pred(mine, m);
    }
}

/// The paths of one side that conflict are those that lie at, above or below a
/// path of the other.
pub proof fn law_conflicting_paths_are_those_that_overlap(
    child: Seq<String>,
    parent: Seq<String>,
    i: int,
    j: int,
    m: int,
)
    ensures
        0 <= i < child.len() && 0 <= j < parent.len() && overlap(child[i]@, parent[j]@)
            ==> conflicts(child, parent).contains(child[i]),
        0 <= m < conflicts(child, parent).len() ==> child.contains(conflicts(child, parent)[m])
            && exists|k: int|
            0 <= k < parent.len() && overlap(
                conflicts(child, parent)[m]@,
                (#[trigger] parent[k])@,
            ),
{
    let hit = |p: String| overlaps_any(p@, parent);
    if 0 <= i < child.len() && 0 <= j < parent.len() && overlap(child[i]@, parent[j]@) {
        assert(overlaps_any(child[i]@, parent));
        child.lemma_filter_contains(hit, i);
    }
    if 0 <= m < conflicts(child, parent).len() {
        child.lemma_filter_pred(hit, m);
        child.lemma_filter_contains_rev(hit, conflicts(child, parent)[m]);
    }
}

/// What a worker added or modified is in the parent after the integration, as the
/// worker left it, and what it deleted is gone from there.
pub proof fn law_the_work_of_a_worker_reaches_the_parent<C>(
    delta: WorkspaceDelta,
    changed: Seq<String>,
    parent: Map<Seq<Component>, C>,
    child: Map<Seq<Component>, C>,
    held: Seq<String>,
    removals: Seq<String>,
    writes: Seq<String>,
    i: int,
)
    requires
        forall|k: Seq<Component>| #[trigger] holds(changed, k) <==> delta.touches(k),
        is_tree(child),
        forall|q: Seq<Component>| #[trigger] holds(held, q) <==> child.contains_key(q),
        brings_over(changed, held, removals, writes),
    ensures
        ({
            let end = refilled(emptied(parent, removals), child, writes);
            &&& 0 <= i < delta.added@.len() && child.contains_key(components(delta.added@[i]@))
                ==> end.contains_pair(
                components(delta.added@[i]@),
                child[components(delta.added@[i]@)],
            )
            &&& 0 <= i < delta.modified@.len() && child.contains_key(
                components(delta.modified@[i]@),
            ) ==> end.contains_pair(
                components(delta.modified@[i]@),
                child[components(delta.modified@[i]@)],
            )
            &&& 0 <= i < delta.deleted@.len() && !child.contains_key(
                components(delta.deleted@[i]@),
            ) ==> !end.contains_key(components(delta.deleted@[i]@))
        }),
{
    law_every_change_is_a_changed_path(delta, changed, i, Seq::empty());
    if 0 <= i < delta.added@.len() {
        law_applied_changes_are_the_childs(
            parent,
            child,
            held,
            changed,
            removals,
            writes,
            components(delta.added@[i]@),
        );
    }
    if 0 <= i < delta.modified@.len() {
        law_applied_changes_are_the_childs(
            parent,
            child,
            held,
            changed,
            removals,
            writes,
            components(delta.modified@[i]@),
        );
    }
    if 0 <= i < delta.deleted@.len() {
        law_applied_changes_are_the_childs(
            parent,
            child,
            held,
            changed,
            removals,
            writes,
            components(delta.deleted@[i]@),
        );
    }
}

/// A record that cannot be loaded is refused with the place of the record and with
/// what is wrong with it.
pub proof fn law_a_record_that_cannot_be_loaded_is_refused(
    store: IsolationStore,
    id: IsolatedWorkspaceId,
    why: String,
    record: IsolatedWorkspaceRecord,
    error: IsolationError,
)
    ensures
        store.refuses(id, RecordProbe::Missing, error) ==> error == IsolationError::NotFound(id),
        store.refuses(id, RecordProbe::Unreadable(why), error) ==> (error matches
            IsolationError::Io { path, message, .. } && path@ == below(
            store.dir(id),
            "record.json"@,
        ) && message@ == why@),
        store.refuses(id, RecordProbe::Invalid(why), error) ==> (error matches
            IsolationError::InvalidRecord { path, message } && path@ == below(
            store.dir(id),
            "record.json"@,
        ) && message@ == why@),
        store.refuses(id, RecordProbe::Record(record), error) ==> !(record.id == id && components(
            record.path@,
        ) == components(below(store.dir(id), "worktree"@))) && (error matches
            IsolationError::InvalidRecord { path, message } && path@ == below(
            store.dir(id),
            "record.json"@,
        ) && message@ == "record identity or workspace path does not match its location"@),
{
}

} // verus!
