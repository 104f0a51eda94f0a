//! What the steps of an integration or a restore do to the files of a workspace,
//! and that a roll back undoes them.
use vstd::prelude::*;
use crate::isolation::{brings_over, conflicts, overlaps_any, puts_back};
use crate::paths::{begins_with, components, holds, overlap, Component};

verus! {

/// Files without those at a path or below it.
pub open spec fn without<C>(files: Map<Seq<Component>, C>, path: Seq<Component>) -> Map<
    Seq<Component>,
    C,
> {
    Map::new(
        |k: Seq<Component>| files.contains_key(k) && !begins_with(k, path),
        |k: Seq<Component>| files[k],
    )
}

/// Files with one written at a path: what stood there goes first.
pub open spec fn with_file<C>(
    files: Map<Seq<Component>, C>,
    path: Seq<Component>,
    content: C,
) -> Map<Seq<Component>, C> {
    without(files, path).insert(path, content)
}

/// One step that changes files.
pub enum FileStep<C> {
    Remove(Seq<Component>),
    Write(Seq<Component>, C),
}

/// The path that a step is about.
pub open spec fn path_of<C>(step: FileStep<C>) -> Seq<Component> {
    match step {
        FileStep::Remove(path) => path,
        FileStep::Write(path, _) => path,
    }
}

/// Files after steps.
pub open spec fn ran<C>(files: Map<Seq<Component>, C>, steps: Seq<FileStep<C>>) -> Map<
    Seq<Component>,
    C,
>
    decreases steps.len(),
{
    if steps.len() == 0 {
        files
    } else {
        let before = ran(files, steps.drop_last());
        match steps.last() {
            FileStep::Remove(path) => without(before, path),
            FileStep::Write(path, content) => with_file(before, path, content),
        }
    }
}

/// Files after the removal of paths.
pub open spec fn emptied<C>(files: Map<Seq<Component>, C>, paths: Seq<String>) -> Map<
    Seq<Component>,
    C,
>
    decreases paths.len(),
{
    if paths.len() == 0 {
        files
    } else {
        without(emptied(files, paths.drop_last()), components(paths.last()@))
    }
}

/// Files after paths were written with what they held in `kept`.
pub open spec fn refilled<C>(
    files: Map<Seq<Component>, C>,
    kept: Map<Seq<Component>, C>,
    paths: Seq<String>,
) -> Map<Seq<Component>, C>
    decreases paths.len(),
{
    if paths.len() == 0 {
        files
    } else {
        let k = components(paths.last()@);
        with_file(refilled(files, kept, paths.drop_last()), k, kept[k])
    }
}

/// Whether files can stand in one tree: none lies below another.
pub open spec fn is_tree<C>(files: Map<Seq<Component>, C>) -> bool {
    forall|a: Seq<Component>, b: Seq<Component>|
        #![trigger files.contains_key(a), files.contains_key(b)]
        files.contains_key(a) && files.contains_key(b) && begins_with(b, a) ==> a == b
}

/// Whether a path lies at or below one of a list.
pub open spec fn covered(paths: Seq<String>, k: Seq<Component>) -> bool {
    exists|i: int| 0 <= i < paths.len() && begins_with(k, components((#[trigger] paths[i])@))
}

proof fn lemma_steps_stay_below<C>(
    files: Map<Seq<Component>, C>,
    steps: Seq<FileStep<C>>,
    changed: Seq<String>,
    k: Seq<Component>,
)
    requires
        forall|i: int| 0 <= i < steps.len() ==> holds(changed, path_of(#[trigger] steps[i])),
        !covered(changed, k),
    ensures
        ran(files, steps).contains_key(k) == files.contains_key(k),
        files.contains_key(k) ==> ran(files, steps)[k] == files[k],
    decreases steps.len(),
{
    if steps.len() > 0 {
        lemma_steps_stay_below(files, steps.drop_last(), changed, k);
        let path = path_of(steps.last());
        assert(steps[steps.len() - 1] == steps.last());
        assert(holds(changed, path));
        let i = choose|i: int| 0 <= i < changed.len() && components((#[trigger] changed[i])@) == path;
        assert(!begins_with(k, path));
        if k == path {
            assert(k.take(k.len() as int) =~= k);
            assert(begins_with(k, path));
        }
    }
}

proof fn lemma_emptied<C>(files: Map<Seq<Component>, C>, paths: Seq<String>, k: Seq<Component>)
    ensures
        emptied(files, paths).contains_key(k) == (files.contains_key(k) && !covered(paths, k)),
        emptied(files, paths).contains_key(k) ==> emptied(files, paths)[k] == files[k],
    decreases paths.len(),
{
    if paths.len() > 0 {
        let init = paths.drop_last();
        lemma_emptied(files, init, k);
        if covered(init, k) {
            let i = choose|i: int|
                0 <= i < init.len() && begins_with(k, components((#[trigger] init[i])@));
            assert(paths[i] == init[i]);
            assert(covered(paths, k));
        }
        if begins_with(k, components(paths.last()@)) {
            assert(begins_with(k, components(paths[paths.len() - 1]@)));
            assert(covered(paths, k));
        }
        if covered(paths, k) {
            let i = choose|i: int|
                0 <= i < paths.len() && begins_with(k, components((#[trigger] paths[i])@));
            if i < init.len() {
                assert(init[i] == paths[i]);
            }
        }
    }
}

proof fn lemma_refilled<C>(
    files: Map<Seq<Component>, C>,
    kept: Map<Seq<Component>, C>,
    paths: Seq<String>,
    k: Seq<Component>,
)
    requires
        is_tree(kept),
        forall|q: Seq<Component>| #[trigger] files.contains_key(q) ==> kept.contains_key(q)
            && files[q] == kept[q],
        forall|i: int| 0 <= i < paths.len() ==> kept.contains_key(components((#[trigger] paths[i])@)),
    ensures
        refilled(files, kept, paths).contains_key(k) == (files.contains_key(k) || holds(paths, k)),
        refilled(files, kept, paths).contains_key(k) ==> kept.contains_key(k) && refilled(
            files,
            kept,
            paths,
        )[k] == kept[k],
    decreases paths.len(),
{
    if paths.len() > 0 {
        let init = paths.drop_last();
        lemma_refilled(files, kept, init, k);
        let last = components(paths.last()@);
        assert(paths[paths.len() - 1] == paths.last());
        if holds(init, k) {
            let i = choose|i: int| 0 <= i < init.len() && components((#[trigger] init[i])@) == k;
            assert(paths[i] == init[i]);
        }
        if holds(paths, k) {
            let i = choose|i: int| 0 <= i < paths.len() && components((#[trigger] paths[i])@) == k;
            if i < init.len() {
                assert(init[i] == paths[i]);
            }
        }
        if k == last {
            assert(holds(paths, k));
        } else if refilled(files, kept, init).contains_key(k) {
            if begins_with(k, last) {
                assert(kept.contains_key(k) && kept.contains_key(last));
            }
        }
    }
}

/// A roll back restores the parent. Whatever steps of an integration were taken,
/// each of them at a changed path, the removal of the changed paths and the
/// return of what was kept, every file of the parent that overlaps a changed
/// path, leave exactly the files that stood there before.
pub proof fn law_roll_back_restores_the_parent<C>(
    before: Map<Seq<Component>, C>,
    steps: Seq<FileStep<C>>,
    present: Seq<String>,
    changed: Seq<String>,
    removals: Seq<String>,
    writes: Seq<String>,
)
    requires
        is_tree(before),
        forall|k: Seq<Component>| #[trigger] holds(present, k) <==> before.contains_key(k),
        forall|i: int| 0 <= i < steps.len() ==> holds(changed, path_of(#[trigger] steps[i])),
        puts_back(changed, conflicts(present, changed), removals, writes),
    ensures
        refilled(emptied(ran(before, steps), removals), before, writes) == before,
{
    let after = ran(before, steps);
    let bare = emptied(after, removals);
    let kept = |p: String| overlaps_any(p@, changed);
    let backup = present.filter(kept);
    assert forall|k: Seq<Component>| covered(removals, k) == covered(changed, k) by {
        if covered(removals, k) {
            let i = choose|i: int|
                0 <= i < removals.len() && begins_with(k, components((#[trigger] removals[i])@));
            let q = components(removals[i]@);
            assert(holds(removals, q));
            let j = choose|j: int| 0 <= j < changed.len() && components((#[trigger] changed[j])@) == q;
            assert(begins_with(k, components(changed[j]@)));
        }
        if covered(changed, k) {
            let i = choose|i: int|
                0 <= i < changed.len() && begins_with(k, components((#[trigger] changed[i])@));
            let q = components(changed[i]@);
            assert(holds(changed, q));
            assert(holds(removals, q));
            let j = choose|j: int|
                0 <= j < removals.len() && components((#[trigger] removals[j])@) == q;
            assert(begins_with(k, components(removals[j]@)));
        }
    }
    assert forall|k: Seq<Component>| #[trigger] bare.contains_key(k) implies before.contains_key(k)
        && bare[k] == before[k] by {
        lemma_emptied(after, removals, k);
        lemma_steps_stay_below(before, steps, changed, k);
    }
    assert forall|i: int| 0 <= i < writes.len() implies before.contains_key(
        components((#[trigger] writes[i])@),
    ) by {
        let k = components(writes[i]@);
        assert(holds(writes, k));
        assert(holds(backup, k));
        let j = choose|j: int| 0 <= j < backup.len() && components((#[trigger] backup[j])@) == k;
        present.lemma_filter_contains_rev(kept, backup[j]);
        let m = choose|m: int| 0 <= m < present.len() && present[m] == backup[j];
        assert(holds(present, k));
    }
    let end = refilled(bare, before, writes);
    assert forall|k: Seq<Component>| #[trigger] end.contains_key(k) == before.contains_key(k) && (
    before.contains_key(k) ==> end[k] == before[k]) by {
        lemma_refilled(bare, before, writes, k);
        lemma_emptied(after, removals, k);
        if before.contains_key(k) && covered(changed, k) {
            assert(holds(present, k));
            let m = choose|m: int| 0 <= m < present.len() && components((#[trigger] present[m])@) == k;
            let i = choose|i: int|
                0 <= i < changed.len() && begins_with(k, components((#[trigger] changed[i])@));
            assert(overlap(present[m]@, changed[i]@));
            assert(overlaps_any(present[m]@, changed));
            present.lemma_filter_contains(kept, m);
            let j = choose|j: int| 0 <= j < backup.len() && backup[j] == present[m];
            assert(holds(backup, k));
            assert(holds(writes, k));
        } else if before.contains_key(k) {
            lemma_steps_stay_below(before, steps, changed, k);
        }
    }
    assert(end =~= before);
}

proof fn lemma_written<C>(
    files: Map<Seq<Component>, C>,
    source: Map<Seq<Component>, C>,
    paths: Seq<String>,
    k: Seq<Component>,
)
    requires
        is_tree(source),
        forall|i: int|
            0 <= i < paths.len() ==> source.contains_key(components((#[trigger] paths[i])@)),
    ensures
        holds(paths, k) ==> refilled(files, source, paths).contains_key(k) && refilled(
            files,
            source,
            paths,
        )[k] == source[k],
        !covered(paths, k) ==> refilled(files, source, paths).contains_key(k)
            == files.contains_key(k) && (files.contains_key(k) ==> refilled(
            files,
            source,
            paths,
        )[k] == files[k]),
        refilled(files, source, paths).contains_key(k) ==> holds(paths, k) || files.contains_key(k),
    decreases paths.len(),
{
    if paths.len() > 0 {
        let init = paths.drop_last();
        lemma_written(files, source, init, k);
        let last = components(paths.last()@);
        assert(paths[paths.len() - 1] == paths.last());
        if holds(paths, k) {
            let i = choose|i: int| 0 <= i < paths.len() && components((#[trigger] paths[i])@) == k;
            if i < init.len() {
                assert(init[i] == paths[i]);
                assert(source.contains_key(k) && source.contains_key(last));
            }
        }
        if holds(init, k) {
            let i = choose|i: int| 0 <= i < init.len() && components((#[trigger] init[i])@) == k;
            assert(paths[i] == init[i]);
        }
        if covered(init, k) {
            let i = choose|i: int|
                0 <= i < init.len() && begins_with(k, components((#[trigger] init[i])@));
            assert(paths[i] == init[i]);
            assert(covered(paths, k));
        }
        if k == last {
            assert(k.take(k.len() as int) =~= k);
            assert(holds(paths, k));
            assert(begins_with(k, components(paths[paths.len() - 1]@)));
        }
        if begins_with(k, last) {
            assert(begins_with(k, components(paths[paths.len() - 1]@)));
            assert(covered(paths, k));
        }
    }
}

/// An integration brings the child's changes and nothing else. At every changed
/// path the parent then holds what the child holds, or nothing where the child
/// holds nothing; a file that lies at no changed path and below none is as it
/// was.
pub proof fn law_applied_changes_are_the_childs<C>(
    parent: Map<Seq<Component>, C>,
    child: Map<Seq<Component>, C>,
    held: Seq<String>,
    changed: Seq<String>,
    removals: Seq<String>,
    writes: Seq<String>,
    k: Seq<Component>,
)
    requires
        is_tree(child),
        forall|q: Seq<Component>| #[trigger] holds(held, q) <==> child.contains_key(q),
        brings_over(changed, held, removals, writes),
    ensures
        ({
            let end = refilled(emptied(parent, removals), child, writes);
            &&& holds(changed, k) ==> end.contains_key(k) == child.contains_key(k)
            &&& holds(changed, k) && child.contains_key(k) ==> end[k] == child[k]
            &&& !covered(changed, k) ==> end.contains_key(k) == parent.contains_key(k)
            &&& !covered(changed, k) && parent.contains_key(k) ==> end[k] == parent[k]
        }),
{
    let kept = |p: String| holds(held, components(p@));
    assert forall|i: int| 0 <= i < writes.len() implies child.contains_key(
        components((#[trigger] writes[i])@),
    ) by {
        changed.lemma_filter_pred(kept, i);
        assert(holds(held, components(writes[i]@)));
    }
    let bare = emptied(parent, removals);
    lemma_emptied(parent, removals, k);
    lemma_written(bare, child, writes, k);
    if holds(changed, k) {
        let i = choose|i: int| 0 <= i < changed.len() && components((#[trigger] changed[i])@) == k;
        if child.contains_key(k) {
            assert(holds(held, k));
            changed.lemma_filter_contains(kept, i);
            let j = choose|j: int| 0 <= j < writes.len() && writes[j] == changed[i];
            assert(components(writes[j]@) == k);
            assert(holds(writes, k));
        } else {
            assert(!holds(held, k));
            assert(holds(removals, k));
            let j = choose|j: int|
                0 <= j < removals.len() && components((#[trigger] removals[j])@) == k;
            assert(k.take(k.len() as int) =~= k);
            assert(begins_with(k, components(removals[j]@)));
            assert(covered(removals, k));
            if holds(writes, k) {
                let m = choose|m: int|
                    0 <= m < writes.len() && components((#[trigger] writes[m])@) == k;
                assert(child.contains_key(components(writes[m]@)));
            }
        }
    }
    if !covered(changed, k) {
        if covered(removals, k) {
            let j = choose|j: int|
                0 <= j < removals.len() && begins_with(k, components((#[trigger] removals[j])@));
            let q = components(removals[j]@);
            assert(holds(removals, q));
            let i = choose|i: int|
                0 <= i < changed.len() && components((#[trigger] changed[i])@) == q;
            assert(begins_with(k, components(changed[i]@)));
        }
        if covered(writes, k) {
            let j = choose|j: int|
                0 <= j < writes.len() && begins_with(k, components((#[trigger] writes[j])@));
            changed.lemma_filter_contains_rev(kept, writes[j]);
            let i = choose|i: int| 0 <= i < changed.len() && changed[i] == writes[j];
            assert(begins_with(k, components(changed[i]@)));
        }
    }
}

/// A restore brings back what a checkpoint holds, and nothing else. The present
/// paths that it does not hold are removed, and every path it holds is written
/// with what it held; then the files are exactly those that were captured.
pub proof fn law_restore_brings_back_the_checkpoint<C>(
    now: Map<Seq<Component>, C>,
    saved: Map<Seq<Component>, C>,
    present: Seq<String>,
    desired: Seq<String>,
)
    requires
        is_tree(saved),
        forall|k: Seq<Component>| #[trigger] holds(present, k) <==> now.contains_key(k),
        forall|k: Seq<Component>| #[trigger] holds(desired, k) <==> saved.contains_key(k),
    ensures
        refilled(
            emptied(now, present.filter(|p: String| !holds(desired, components(p@)))),
            saved,
            desired,
        ) == saved,
{
    let stale = |p: String| !holds(desired, components(p@));
    let removals = present.filter(stale);
    let bare = emptied(now, removals);
    let end = refilled(bare, saved, desired);
    assert forall|i: int| 0 <= i < desired.len() implies saved.contains_key(
        components((#[trigger] desired[i])@),
    ) by {
        assert(holds(desired, components(desired[i]@)));
    }
    assert forall|k: Seq<Component>| #[trigger] end.contains_key(k) == saved.contains_key(k) && (
    saved.contains_key(k) ==> end[k] == saved[k]) by {
        lemma_written(bare, saved, desired, k);
        lemma_emptied(now, removals, k);
        if saved.contains_key(k) {
            assert(holds(desired, k));
        } else if bare.contains_key(k) {
            assert(holds(present, k));
            let i = choose|i: int|
                0 <= i < present.len() && components((#[trigger] present[i])@) == k;
            assert(!holds(desired, k));
            present.lemma_filter_contains(stale, i);
            let j = choose|j: int| 0 <= j < removals.len() && removals[j] == present[i];
            assert(k.take(k.len() as int) =~= k);
            assert(begins_with(k, components(removals[j]@)));
            assert(covered(removals, k));
        }
    }
    assert(end =~= saved);
}

} // verus!
