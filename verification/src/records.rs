//! The records that a store of isolated workspaces holds, from one operation to
//! the next.
use vstd::prelude::*;
use crate::identity::IsolatedWorkspaceId;
use crate::isolation::{fits, follows, Integration, IntegrationPhase, IntegrationProgress, IntegrationResult, IsolatedWorkspaceRecord, IsolationError, IsolationStore, RecordProbe, StepResult};
use crate::paths::{begins_with, components, lemma_components_below, Component};
use crate::ptc::prelude::below;
use crate::rollback::without;
use crate::text::{decimal, lemma_decimal_digits, lemma_decimal_injective};

verus! {

/// Where the record of an isolated workspace lies.
pub open spec fn place(store: IsolationStore, id: IsolatedWorkspaceId) -> Seq<Component> {
    components(below(store.dir(id), "record.json"@))
}

/// What is found at the place of a record, where these records lie in the store.
pub open spec fn found(
    store: IsolationStore,
    records: Map<Seq<Component>, IsolatedWorkspaceRecord>,
    id: IsolatedWorkspaceId,
) -> RecordProbe {
    if records.contains_key(place(store, id)) {
        RecordProbe::Record(records[place(store, id)])
    } else {
        RecordProbe::Missing
    }
}

/// An operation that changes what a store holds.
pub enum StoreStep {
    /// A workspace was made, and its record written.
    Created(IsolatedWorkspaceRecord),
    /// The record of a settled worker was written over the one that was loaded.
    Finalized(IsolatedWorkspaceRecord),
    /// The directory of a workspace was removed.
    Removed(IsolatedWorkspaceId),
}

/// The records after an operation.
pub open spec fn stepped(
    store: IsolationStore,
    records: Map<Seq<Component>, IsolatedWorkspaceRecord>,
    step: StoreStep,
) -> Map<Seq<Component>, IsolatedWorkspaceRecord> {
    match step {
        StoreStep::Created(record) => records.insert(place(store, record.id), record),
        StoreStep::Finalized(record) => match found(store, records, record.id) {
            RecordProbe::Record(was) if store.is_at_home(record.id, was) => records.insert(
                place(store, record.id),
                record,
            ),
            _ => records,
        },
        StoreStep::Removed(id) => without(records, components(store.dir(id))),
    }
}

/// The records after some operations.
pub open spec fn after(
    store: IsolationStore,
    records: Map<Seq<Component>, IsolatedWorkspaceRecord>,
    steps: Seq<StoreStep>,
) -> Map<Seq<Component>, IsolatedWorkspaceRecord>
    decreases steps.len(),
{
    if steps.len() == 0 {
        records
    } else {
        stepped(store, after(store, records, steps.drop_last()), steps.last())
    }
}

/// Where a workspace and its record lie: one and two components below the root of
/// the store.
proof fn lemma_place(store: IsolationStore, id: IsolatedWorkspaceId)
    ensures
        components(store.dir(id)) == components(store.root@).push(
            Component::Normal(decimal(id.0 as nat)),
        ),
        place(store, id) == components(store.dir(id)).push(Component::Normal("record.json"@)),
{
    let number = decimal(id.0 as nat);
    reveal_strlit(".");
    reveal_strlit("..");
    reveal_strlit("record.json");
    lemma_decimal_digits(id.0 as nat);
    assert(number[0] != '.');
    assert(!number.contains('/')) by {
        if number.contains('/') {
            let i = choose|i: int| 0 <= i < number.len() && number[i] == '/';
            assert('0' <= number[i]);
        }
    }
    lemma_components_below(store.root@, number);
    assert(!"record.json"@.contains('/'));
    assert("record.json"@.len() == 11);
    assert("."@.len() == 1);
    assert(".."@.len() == 2);
    lemma_components_below(store.dir(id), "record.json"@);
}

/// The record of a workspace lies below its own directory and below that of no
/// other.
proof fn lemma_records_lie_apart(
    store: IsolationStore,
    id: IsolatedWorkspaceId,
    other: IsolatedWorkspaceId,
)
    ensures
        begins_with(place(store, other), components(store.dir(id))) == (other == id),
        (place(store, other) == place(store, id)) == (other == id),
{
    lemma_place(store, id);
    lemma_place(store, other);
    let root = components(store.root@);
    let here = components(store.dir(id));
    let there = place(store, other);
    let n = root.len() as int;
    assert(here[n] == Component::Normal(decimal(id.0 as nat)));
    assert(there[n] == Component::Normal(decimal(other.0 as nat)));
    if other == id {
        assert(there.take(here.len() as int) =~= here);
    } else {
        if decimal(id.0 as nat) == decimal(other.0 as nat) {
            lemma_decimal_injective(id.0 as nat, other.0 as nat);
        }
        assert(there.take(here.len() as int)[n] == there[n]);
        assert(place(store, id)[n] == here[n]);
    }
}

/// What is loaded is the record of the workspace that was asked for, and its path
/// is that of the working tree in this store. Any other record that lies there
/// is invalid.
pub proof fn law_loaded_records_are_at_home(
    store: IsolationStore,
    records: Map<Seq<Component>, IsolatedWorkspaceRecord>,
    id: IsolatedWorkspaceId,
    r: Result<IsolatedWorkspaceRecord, IsolationError>,
)
    requires
        store.loads(id, found(store, records, id), r),
    ensures
        r matches Ok(record) ==> record.id == id && components(record.path@) == components(
            below(store.dir(id), "worktree"@),
        ) && records.contains_key(place(store, id)) && records[place(store, id)] == record,
        r is Err && records.contains_key(place(store, id)) ==> r->Err_0 is InvalidRecord,
        r is Err && !records.contains_key(place(store, id)) ==> r->Err_0
            == IsolationError::NotFound(id),
{
}

/// The record that a creation wrote is the one that is then loaded, and no other
/// workspace is affected.
pub proof fn law_created_workspaces_load(
    store: IsolationStore,
    records: Map<Seq<Component>, IsolatedWorkspaceRecord>,
    record: IsolatedWorkspaceRecord,
    other: IsolatedWorkspaceId,
    r: Result<IsolatedWorkspaceRecord, IsolationError>,
)
    requires
        record.path@ == below(store.dir(record.id), "worktree"@),
        store.loads(
            record.id,
            found(store, stepped(store, records, StoreStep::Created(record)), record.id),
            r,
        ),
    ensures
        r == Ok::<IsolatedWorkspaceRecord, IsolationError>(record),
        other != record.id ==> found(
            store,
            stepped(store, records, StoreStep::Created(record)),
            other,
        ) == found(store, records, other),
{
    lemma_records_lie_apart(store, record.id, other);
}

/// The removal of a workspace takes its record away, and that of no other.
pub proof fn law_a_removal_is_of_one_workspace(
    store: IsolationStore,
    records: Map<Seq<Component>, IsolatedWorkspaceRecord>,
    id: IsolatedWorkspaceId,
    other: IsolatedWorkspaceId,
)
    ensures
        found(store, stepped(store, records, StoreStep::Removed(id)), id) is Missing,
        other != id ==> found(store, stepped(store, records, StoreStep::Removed(id)), other)
            == found(store, records, other),
{
    lemma_records_lie_apart(store, id, id);
    lemma_records_lie_apart(store, id, other);
}

/// Once a discard has removed the directory that it names, the workspace is not
/// found, to be loaded or to be discarded again, and no other is affected.
pub proof fn law_discarded_workspaces_are_not_found(
    store: IsolationStore,
    records: Map<Seq<Component>, IsolatedWorkspaceRecord>,
    id: IsolatedWorkspaceId,
    gone: (String, String),
    other: IsolatedWorkspaceId,
    r: Result<IsolatedWorkspaceRecord, IsolationError>,
    again: Result<(String, String), IsolationError>,
)
    requires
        store.discards(id, found(store, records, id), Ok(gone)),
        store.loads(id, found(store, without(records, components(gone.1@)), id), r),
        store.discards(id, found(store, without(records, components(gone.1@)), id), again),
    ensures
        without(records, components(gone.1@)) == stepped(store, records, StoreStep::Removed(id)),
        r == Err::<IsolatedWorkspaceRecord, IsolationError>(IsolationError::NotFound(id)),
        again == Err::<(String, String), IsolationError>(IsolationError::NotFound(id)),
        other != id ==> found(store, without(records, components(gone.1@)), other) == found(
            store,
            records,
            other,
        ),
{
    law_a_removal_is_of_one_workspace(store, records, id, other);
}

/// A workspace that was removed is not found, whatever was done to the store
/// since, until one of its number is created again.
pub proof fn law_removed_workspaces_are_not_found(
    store: IsolationStore,
    records: Map<Seq<Component>, IsolatedWorkspaceRecord>,
    steps: Seq<StoreStep>,
    k: int,
    id: IsolatedWorkspaceId,
    r: Result<IsolatedWorkspaceRecord, IsolationError>,
)
    requires
        0 <= k < steps.len(),
        steps[k] == StoreStep::Removed(id),
        forall|j: int|
            k < j < steps.len() ==> !(#[trigger] steps[j] matches StoreStep::Created(record)
                && record.id == id),
        store.loads(id, found(store, after(store, records, steps), id), r),
    ensures
        r == Err::<IsolatedWorkspaceRecord, IsolationError>(IsolationError::NotFound(id)),
{
    lemma_stays_missing(store, records, steps, k, id);
}

proof fn lemma_stays_missing(
    store: IsolationStore,
    records: Map<Seq<Component>, IsolatedWorkspaceRecord>,
    steps: Seq<StoreStep>,
    k: int,
    id: IsolatedWorkspaceId,
)
    requires
        0 <= k < steps.len(),
        steps[k] == StoreStep::Removed(id),
        forall|j: int|
            k < j < steps.len() ==> !(#[trigger] steps[j] matches StoreStep::Created(record)
                && record.id == id),
    ensures
        found(store, after(store, records, steps), id) is Missing,
    decreases steps.len(),
{
    let init = steps.drop_last();
    let before = after(store, records, init);
    if k == steps.len() - 1 {
        law_a_removal_is_of_one_workspace(store, before, id, id);
    } else {
        assert forall|j: int| k < j < init.len() implies !(#[trigger] init[j] matches
            StoreStep::Created(record) && record.id == id) by {
            assert(init[j] == steps[j]);
        }
        lemma_stays_missing(store, records, init, k, id);
        let last = steps[steps.len() - 1];
        match last {
            StoreStep::Created(record) => lemma_records_lie_apart(store, record.id, id),
            StoreStep::Finalized(record) => lemma_records_lie_apart(store, record.id, id),
            StoreStep::Removed(other) => law_a_removal_is_of_one_workspace(
                store,
                before,
                other,
                id,
            ),
        }
    }
}

/// One moment of an integration: where it stands, what its step comes to, and
/// the records that the store holds before that step.
pub struct IntegrationMoment {
    pub at: Integration,
    pub result: StepResult,
    pub records: Map<Seq<Component>, IsolatedWorkspaceRecord>,
}

/// Whether these are the records after the step of a moment. Only the step that
/// removes the workspace touches them; where it fails, nothing is said of them.
pub open spec fn leaves(
    store: IsolationStore,
    moment: IntegrationMoment,
    records: Map<Seq<Component>, IsolatedWorkspaceRecord>,
) -> bool {
    match (moment.at.phase, moment.result) {
        (IntegrationPhase::Discard(_), StepResult::Step(Ok(_))) => records == stepped(
            store,
            moment.records,
            StoreStep::Removed(moment.at.record.id),
        ),
        (IntegrationPhase::Discard(_), _) => true,
        _ => records == moment.records,
    }
}

/// Whether an integration took this course, and left these records in the store.
pub open spec fn integrated(
    store: IsolationStore,
    course: Seq<IntegrationMoment>,
    records: Map<Seq<Component>, IsolatedWorkspaceRecord>,
    end: Result<IntegrationResult, IsolationError>,
) -> bool {
    &&& course.len() > 0
    &&& forall|i: int|
        0 <= i < course.len() ==> fits((#[trigger] course[i]).at.phase, course[i].result)
    &&& forall|i: int|
        #![trigger course[i]]
        0 <= i < course.len() - 1 ==> follows(
            course[i].at,
            course[i].result,
            IntegrationProgress::Continue(course[i + 1].at),
        ) && leaves(store, course[i], course[i + 1].records)
    &&& follows(course.last().at, course.last().result, IntegrationProgress::Finished(end))
    &&& leaves(store, course.last(), records)
}

proof fn lemma_records_until_the_end(
    store: IsolationStore,
    course: Seq<IntegrationMoment>,
    records: Map<Seq<Component>, IsolatedWorkspaceRecord>,
    end: Result<IntegrationResult, IsolationError>,
    i: int,
)
    requires
        integrated(store, course, records, end),
        end is Ok,
        0 <= i < course.len(),
    ensures
        course[i].at.record == course[0].at.record,
        course[i].records == course[0].records,
    decreases i,
{
    if i > 0 {
        lemma_records_until_the_end(store, course, records, end, i - 1);
        let was = course[i - 1];
        let now = course[i];
        assert(fits(was.at.phase, was.result));
        assert(fits(now.at.phase, now.result));
        assert(follows(was.at, was.result, IntegrationProgress::Continue(course[(i - 1) + 1].at)));
        if was.at.phase is Discard {
            assert(now.at.phase is RollBack);
            if i < course.len() - 1 {
                assert(follows(
                    now.at,
                    now.result,
                    IntegrationProgress::Continue(course[i + 1].at),
                ));
            }
        }
    }
}

/// A workspace whose integration was applied is not found afterwards, and no
/// other is affected.
pub proof fn law_applied_workspaces_are_not_found(
    store: IsolationStore,
    course: Seq<IntegrationMoment>,
    records: Map<Seq<Component>, IsolatedWorkspaceRecord>,
    done: IntegrationResult,
    other: IsolatedWorkspaceId,
    r: Result<IsolatedWorkspaceRecord, IsolationError>,
)
    requires
        integrated(store, course, records, Ok(done)),
        store.loads(course[0].at.record.id, found(store, records, course[0].at.record.id), r),
    ensures
        done is Applied,
        r == Err::<IsolatedWorkspaceRecord, IsolationError>(
            IsolationError::NotFound(course[0].at.record.id),
        ),
        other != course[0].at.record.id ==> found(store, records, other) == found(
            store,
            course[0].records,
            other,
        ),
{
    let last = course.len() - 1;
    lemma_records_until_the_end(store, course, records, Ok(done), last);
    assert(fits(course[last].at.phase, course[last].result));
    law_a_removal_is_of_one_workspace(
        store,
        course[0].records,
        course[0].at.record.id,
        other,
    );
}

} // verus!
