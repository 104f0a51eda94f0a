//! What the goal of a task records, and when the task may complete.
use vstd::prelude::*;
use crate::delegation::AgentState;
use crate::goal::{titles_of, AcceptanceCriterion, FinishObjection, FinishVerdict, GoalState, GoalUpdate, TaskStatus};
use crate::identity::{AgentId, ProcessId};
use crate::session::{failed_kinds, is_newest, newest_from, objection_views, raised, remaining, running_processes, unmet_criteria, unresolved_agents, AgentRecord, EvidenceRecord, Objection, ProcessRecord, TaskView};
use crate::text::views;

verus! {

/// After an update the goal holds what was supplied, field by field, and what it
/// held before in every field that was not.
pub proof fn law_an_update_records_what_it_supplies(
    before: GoalState,
    update: GoalUpdate,
    after: GoalState,
)
    requires
        after == before.updated(update),
    ensures
        update.objective matches Some(v) ==> after.objective == v,
        update.objective is None ==> after.objective == before.objective,
        update.acceptance_criteria matches Some(v) ==> after.acceptance_criteria == v,
        update.acceptance_criteria is None ==> after.acceptance_criteria
            == before.acceptance_criteria,
        update.completed matches Some(v) ==> after.completed_work == v,
        update.completed is None ==> after.completed_work == before.completed_work,
        update.pending matches Some(v) ==> after.pending_work == v,
        update.pending is None ==> after.pending_work == before.pending_work,
        update.blockers matches Some(v) ==> after.blockers == v,
        update.blockers is None ==> after.blockers == before.blockers,
        update.decisions matches Some(v) ==> after.decisions == v,
        update.decisions is None ==> after.decisions == before.decisions,
        update.findings matches Some(v) ==> after.findings == v,
        update.findings is None ==> after.findings == before.findings,
        update.failed_approaches matches Some(v) ==> after.failed_approaches == v,
        update.failed_approaches is None ==> after.failed_approaches == before.failed_approaches,
        update.next_actions matches Some(v) ==> after.next_actions == v,
        update.next_actions is None ==> after.next_actions == before.next_actions,
{
}

/// An update that is refused as empty supplies nothing, and every other supplies
/// something: applied to some goal, it can change it.
pub proof fn law_only_an_update_of_nothing_is_empty(update: GoalUpdate)
    ensures
        update.objective is Some || update.acceptance_criteria is Some || update.completed is Some
            || update.pending is Some || update.blockers is Some || update.decisions is Some
            || update.findings is Some || update.failed_approaches is Some
            || update.next_actions is Some <==> !update.empty(),
{
}

/// A verification speaks for the workspace as long as the revision it was made
/// at is the current one, and no longer.
pub proof fn law_a_verification_holds_at_its_revision(goal: GoalState, other: GoalState)
    requires
        goal.last_verified_revision == other.last_verified_revision,
        goal.verified_now(),
    ensures
        other.verified_now() <==> other.current_revision.0@ == goal.current_revision.0@,
        goal.last_verified_revision is Some,
{
}

/// A task is live in every status but the three that end it.
pub proof fn law_a_task_ends_completed_failed_or_cancelled(status: TaskStatus)
    ensures
        status.active() <==> status != TaskStatus::Completed && status != TaskStatus::Failed
            && status != TaskStatus::Cancelled,
{
}

/// Whether a worker is still at work.
pub open spec fn at_work(state: AgentState) -> bool {
    state == AgentState::Queued || state == AgentState::Running || state == AgentState::Waiting
}

/// Whether a record is the last of its kind, and reports a failure.
pub open spec fn last_failed(records: Seq<EvidenceRecord>, i: int) -> bool {
    &&& 0 <= i < records.len()
    &&& !records[i].ok
    &&& forall|j: int| i < j < records.len() ==> (#[trigger] records[j]).kind@ != records[i].kind@
}

/// Whether the runtime sees something that is not done, or not known to be good.
pub open spec fn unsettled(view: TaskView) -> bool {
    ||| exists|i: int| 0 <= i < view.agents@.len() && at_work((#[trigger] view.agents@[i]).state)
    ||| exists|i: int|
        0 <= i < view.processes@.len() && (#[trigger] view.processes@[i]).state@ == "running"@
    ||| view.outcome_unknown_executions@.len() > 0
    ||| exists|i: int| #[trigger] last_failed(view.evidence@, i)
    ||| view.unintegrated_workspaces@.len() > 0
    ||| view.open_conflict_paths@.len() > 0
    ||| view.changed_paths@.len() > 0 && (match view.goal.last_verified_revision {
        Some(revision) => revision.0@ != view.goal.current_revision.0@,
        None => true,
    })
}

/// Whether the goal itself lists something left to do.
pub open spec fn unfinished(view: TaskView) -> bool {
    ||| view.goal.pending_work@.len() > 0
    ||| exists|i: int|
        0 <= i < view.goal.acceptance_criteria@.len()
            && !(#[trigger] view.goal.acceptance_criteria@[i]).met
}

/// Whether the verdict is what the view and the request come to.
pub open spec fn is_verdict(view: TaskView, force: bool, verdict: FinishVerdict) -> bool {
    &&& objection_views(verdict.objections@) == remaining(view, force)
    &&& objection_views(verdict.waived@) == if force {
        view.objections().filter(|o: Objection| o.overridable())
    } else {
        Seq::empty()
    }
    &&& verdict.accepted == (remaining(view, force).len() == 0)
}

/// What is filtered out of a sequence is what the predicate holds of.
pub proof fn lemma_filter_map<A, B>(all: Seq<A>, pred: spec_fn(A) -> bool, pick: spec_fn(A) -> B)
    ensures
        forall|i: int|
            0 <= i < all.len() && pred(#[trigger] all[i]) ==> all.filter(pred).map_values(
                pick,
            ).contains(pick(all[i])),
        forall|k: int|
            0 <= k < all.filter(pred).len() ==> exists|i: int|
                0 <= i < all.len() && #[trigger] all[i] == (#[trigger] all.filter(pred)[k]) && pred(
                    all[i],
                ),
        all.filter(pred).len() > 0 <==> exists|i: int| 0 <= i < all.len() && pred(#[trigger] all[i]),
{
    let some = all.filter(pred);
    assert forall|i: int| 0 <= i < all.len() && pred(#[trigger] all[i]) implies some.map_values(
        pick,
    ).contains(pick(all[i])) by {
        all.lemma_filter_contains(pred, i);
        let k = choose|k: int| 0 <= k < some.len() && some[k] == all[i];
        assert(some.map_values(pick)[k] == pick(all[i]));
    }
    assert forall|k: int| 0 <= k < some.len() implies exists|i: int|
        0 <= i < all.len() && #[trigger] all[i] == (#[trigger] some[k]) && pred(all[i]) by {
        all.lemma_filter_pred(pred, k);
        all.lemma_filter_contains_rev(pred, some[k]);
    }
    if some.len() > 0 {
        let i = choose|i: int| 0 <= i < all.len() && #[trigger] all[i] == some[0] && pred(all[i]);
        assert(pred(all[i]));
    }
    if exists|i: int| 0 <= i < all.len() && pred(#[trigger] all[i]) {
        let i = choose|i: int| 0 <= i < all.len() && pred(#[trigger] all[i]);
        all.lemma_filter_contains(pred, i);
    }
}

pub proof fn lemma_newest(records: Seq<EvidenceRecord>, from: int)
    requires
        0 <= from <= records.len(),
    ensures
        forall|i: int|
            from <= i < records.len() && #[trigger] is_newest(records, i) ==> newest_from(
                records,
                from,
            ).contains(i),
        forall|k: int|
            0 <= k < newest_from(records, from).len() ==> from <= (#[trigger] newest_from(
                records,
                from,
            )[k]) < records.len() && is_newest(records, newest_from(records, from)[k]),
    decreases records.len() - from,
{
    if from < records.len() {
        lemma_newest(records, from + 1);
        let rest = newest_from(records, from + 1);
        let all = newest_from(records, from);
        if is_newest(records, from) {
            assert(all =~= seq![from] + rest);
            assert(all[0] == from);
            assert forall|i: int| from <= i < records.len() && #[trigger] is_newest(
                records,
                i,
            ) implies all.contains(i) by {
                if i > from {
                    let k = choose|k: int| 0 <= k < rest.len() && rest[k] == i;
                    assert(all[k + 1] == i);
                }
            }
            assert forall|k: int| 0 <= k < all.len() implies from <= (#[trigger] all[k])
                < records.len() && is_newest(records, all[k]) by {
                if k > 0 {
                    assert(all[k] == rest[k - 1]);
                }
            }
        }
    }
}

/// The kinds that count as failed are those whose last record is a failure.
proof fn lemma_failed_kinds(records: Seq<EvidenceRecord>)
    ensures
        forall|i: int| #[trigger]
            last_failed(records, i) ==> failed_kinds(records).contains(records[i].kind@),
        forall|k: int|
            0 <= k < failed_kinds(records).len() ==> exists|i: int|
                last_failed(records, i) && records[i].kind@ == #[trigger] failed_kinds(records)[k],
        failed_kinds(records).len() > 0 <==> exists|i: int| #[trigger] last_failed(records, i),
{
    let newest = newest_from(records, 0);
    let pred = |i: int| !records[i].ok;
    let pick = |i: int| records[i].kind@;
    lemma_newest(records, 0);
    lemma_filter_map(newest, pred, pick);
    let failed = newest.filter(pred);
    assert(failed_kinds(records) =~= failed.map_values(pick));
    assert forall|i: int| #[trigger] last_failed(records, i) implies failed_kinds(
        records,
    ).contains(records[i].kind@) by {
        assert(is_newest(records, i));
        let k = choose|k: int| 0 <= k < newest.len() && newest[k] == i;
        assert(pred(newest[k]));
    }
    assert forall|k: int| 0 <= k < failed_kinds(records).len() implies exists|i: int|
        last_failed(records, i) && records[i].kind@ == #[trigger] failed_kinds(records)[k] by {
        let i = failed[k];
        let m = choose|m: int| 0 <= m < newest.len() && newest[m] == failed[k] && pred(newest[m]);
        assert(is_newest(records, newest[m]));
        assert(last_failed(records, i));
        assert(failed_kinds(records)[k] == pick(failed[k]));
    }
    if failed_kinds(records).len() > 0 {
        assert(failed_kinds(records)[0] == failed_kinds(records)[0]);
    }
    if exists|i: int| #[trigger] last_failed(records, i) {
        let i = choose|i: int| #[trigger] last_failed(records, i);
        assert(failed_kinds(records).contains(records[i].kind@));
    }
}

proof fn lemma_conditions(view: TaskView)
    ensures
        unsettled(view) <==> (unresolved_agents(view.agents@).len() > 0 || running_processes(
            view.processes@,
        ).len() > 0 || view.outcome_unknown_executions@.len() > 0 || failed_kinds(
            view.evidence@,
        ).len() > 0 || view.unintegrated_workspaces@.len() > 0 || view.open_conflict_paths@.len()
            > 0 || view.verification_is_stale()),
        unfinished(view) <==> (view.goal.pending_work@.len() > 0 || unmet_criteria(
            view.goal.acceptance_criteria@,
        ).len() > 0),
{
    let live = |a: AgentRecord| !a.state.terminal();
    lemma_filter_map(view.agents@, live, |a: AgentRecord| a.agent);
    assert forall|i: int| 0 <= i < view.agents@.len() implies at_work(
        (#[trigger] view.agents@[i]).state,
    ) == live(view.agents@[i]) by {}
    let runs = |p: ProcessRecord| p.state@ == "running"@;
    lemma_filter_map(view.processes@, runs, |p: ProcessRecord| p.process);
    assert forall|i: int| 0 <= i < view.processes@.len() implies ((
    #[trigger] view.processes@[i]).state@ == "running"@) == runs(view.processes@[i]) by {}
    lemma_failed_kinds(view.evidence@);
    let open = |c: AcceptanceCriterion| !c.met;
    lemma_filter_map(
        view.goal.acceptance_criteria@,
        open,
        |c: AcceptanceCriterion| c.description@,
    );
    assert forall|i: int| 0 <= i < view.goal.acceptance_criteria@.len() implies (!(
    #[trigger] view.goal.acceptance_criteria@[i]).met) == open(
        view.goal.acceptance_criteria@[i],
    ) by {}
}

/// A task completes exactly where nothing is left: no worker is at work, no
/// process runs, no execution is unaccounted for, the last verification of every
/// kind passed, every delta was taken or dropped, no conflict is open, what was
/// changed is verified as it stands, no work is pending, and every criterion is
/// met. Force puts up with the last two, and with nothing else.
pub proof fn law_a_task_completes_where_nothing_is_left(
    view: TaskView,
    force: bool,
    verdict: FinishVerdict,
)
    requires
        is_verdict(view, force, verdict),
    ensures
        verdict.accepted <==> !unsettled(view) && (force || !unfinished(view)),
        verdict.accepted <==> verdict.objections@.len() == 0,
{
    lemma_conditions(view);
    assert(objection_views(verdict.objections@).len() == verdict.objections@.len());
    let all = view.objections();
    let keep = |o: Objection| !o.overridable();
    reveal_with_fuel(Seq::filter, 1);
    if unsettled(view) {
        crate::session::law_finish_refused_over_runtime_facts(view, force);
    } else if unfinished(view) {
        crate::session::law_force_waives_only_remaining_work(view);
    } else {
        assert(all =~= Seq::<Objection>::empty());
    }
}

/// Whether what an objection says is so.
pub open spec fn is_so(view: TaskView, objection: FinishObjection) -> bool {
    match objection {
        FinishObjection::UnresolvedAgents { agents } => forall|m: int|
            0 <= m < agents@.len() ==> exists|i: int|
                0 <= i < view.agents@.len() && at_work((#[trigger] view.agents@[i]).state)
                    && view.agents@[i].agent == #[trigger] agents@[m],
        FinishObjection::RunningProcesses { processes } => forall|m: int|
            0 <= m < processes@.len() ==> exists|i: int|
                0 <= i < view.processes@.len() && (#[trigger] view.processes@[i]).state@
                    == "running"@ && view.processes@[i].process == #[trigger] processes@[m],
        FinishObjection::OutcomeUnknownExecutions { executions } => executions@
            == view.outcome_unknown_executions@,
        FinishObjection::FailedVerification { kinds } => forall|m: int|
            0 <= m < kinds@.len() ==> exists|i: int|
                #[trigger] last_failed(view.evidence@, i) && view.evidence@[i].kind@
                    == (#[trigger] kinds@[m])@,
        FinishObjection::StaleVerification { current, verified } => {
            &&& view.changed_paths@.len() > 0
            &&& current.0@ == view.goal.current_revision.0@
            &&& match (verified, view.goal.last_verified_revision) {
                (Some(a), Some(b)) => a.0@ == b.0@ && a.0@ != current.0@,
                (None, None) => true,
                _ => false,
            }
        },
        FinishObjection::PendingWork { items } => {
            &&& items@.len() == view.goal.pending_work@.len()
            &&& forall|m: int|
                0 <= m < items@.len() ==> (#[trigger] items@[m])@
                    == view.goal.pending_work@[m].title@
        },
        FinishObjection::UnmetCriteria { criteria } => forall|m: int|
            0 <= m < criteria@.len() ==> exists|i: int|
                0 <= i < view.goal.acceptance_criteria@.len() && !(
                #[trigger] view.goal.acceptance_criteria@[i]).met
                    && view.goal.acceptance_criteria@[i].description@ == (#[trigger] criteria@[m])@,
        FinishObjection::UnintegratedWorkspaces { workspaces } => workspaces@
            == view.unintegrated_workspaces@,
        FinishObjection::OpenConflict { paths } => {
            &&& paths@.len() == view.open_conflict_paths@.len()
            &&& forall|m: int|
                0 <= m < paths@.len() ==> (#[trigger] paths@[m])@
                    == view.open_conflict_paths@[m]@
        },
    }
}

/// Whether some objection of a list names the worker.
pub open spec fn names_agent(objections: Seq<FinishObjection>, agent: AgentId) -> bool {
    exists|k: int|
        0 <= k < objections.len() && (#[trigger] objections[k] matches
            FinishObjection::UnresolvedAgents { agents } && agents@.contains(agent))
}

/// Whether some objection of a list names the process.
pub open spec fn names_process(objections: Seq<FinishObjection>, process: ProcessId) -> bool {
    exists|k: int|
        0 <= k < objections.len() && (#[trigger] objections[k] matches
            FinishObjection::RunningProcesses { processes } && processes@.contains(process))
}

/// Whether some objection of a list names the kind of verification.
pub open spec fn names_kind(objections: Seq<FinishObjection>, kind: Seq<char>) -> bool {
    exists|k: int|
        0 <= k < objections.len() && (#[trigger] objections[k] matches
            FinishObjection::FailedVerification { kinds } && views(kinds@).contains(kind))
}

/// Whether some objection of a list is over pending work.
pub open spec fn names_work(objections: Seq<FinishObjection>) -> bool {
    exists|k: int| 0 <= k < objections.len() && (#[trigger] objections[k]) is PendingWork
}

/// Whether some objection of a list names the criterion.
pub open spec fn names_criterion(
    objections: Seq<FinishObjection>,
    description: Seq<char>,
) -> bool {
    exists|k: int|
        0 <= k < objections.len() && (#[trigger] objections[k] matches
            FinishObjection::UnmetCriteria { criteria } && views(criteria@).contains(description))
}

proof fn lemma_objection_stands(
    view: TaskView,
    force: bool,
    verdict: FinishVerdict,
    objection: Objection,
)
    requires
        is_verdict(view, force, verdict),
        view.objections().contains(objection),
    ensures
        force && objection.overridable() ==> exists|k: int|
            0 <= k < verdict.waived@.len() && (#[trigger] verdict.waived@[k])@ == objection,
        !(force && objection.overridable()) ==> exists|k: int|
            0 <= k < verdict.objections@.len() && (#[trigger] verdict.objections@[k])@ == objection,
{
    let all = view.objections();
    let i = choose|i: int| 0 <= i < all.len() && all[i] == objection;
    let keep = |o: Objection| !o.overridable();
    let waive = |o: Objection| o.overridable();
    if force && objection.overridable() {
        all.lemma_filter_contains(waive, i);
        let k = choose|k: int| 0 <= k < all.filter(waive).len() && all.filter(waive)[k] == objection;
        assert(objection_views(verdict.waived@)[k] == verdict.waived@[k]@);
    } else {
        if force {
            all.lemma_filter_contains(keep, i);
        }
        let some = remaining(view, force);
        let k = choose|k: int| 0 <= k < some.len() && some[k] == objection;
        assert(objection_views(verdict.objections@)[k] == verdict.objections@[k]@);
    }
}

/// Every worker that is at work is objected to by name, forced or not.
pub proof fn law_workers_at_work_are_objected_to(
    view: TaskView,
    force: bool,
    verdict: FinishVerdict,
    i: int,
)
    requires
        is_verdict(view, force, verdict),
        0 <= i < view.agents@.len(),
        at_work(view.agents@[i].state),
    ensures
        names_agent(verdict.objections@, view.agents@[i].agent),
{
    let agents = unresolved_agents(view.agents@);
    let live = |a: AgentRecord| !a.state.terminal();
    lemma_filter_map(view.agents@, live, |a: AgentRecord| a.agent);
    assert(live(view.agents@[i]));
    assert(agents.contains(view.agents@[i].agent));
    lemma_contained(view);
    lemma_objection_stands(view, force, verdict, Objection::UnresolvedAgents(agents));
}

/// Every process that runs is objected to by name, forced or not.
pub proof fn law_running_processes_are_objected_to(
    view: TaskView,
    force: bool,
    verdict: FinishVerdict,
    i: int,
)
    requires
        is_verdict(view, force, verdict),
        0 <= i < view.processes@.len(),
        view.processes@[i].state@ == "running"@,
    ensures
        names_process(verdict.objections@, view.processes@[i].process),
{
    let processes = running_processes(view.processes@);
    let runs = |p: ProcessRecord| p.state@ == "running"@;
    lemma_filter_map(view.processes@, runs, |p: ProcessRecord| p.process);
    assert(runs(view.processes@[i]));
    assert(processes.contains(view.processes@[i].process));
    lemma_contained(view);
    lemma_objection_stands(view, force, verdict, Objection::RunningProcesses(processes));
}

/// Every kind of verification that failed last is objected to by name, forced or
/// not.
pub proof fn law_failed_verifications_are_objected_to(
    view: TaskView,
    force: bool,
    verdict: FinishVerdict,
    i: int,
)
    requires
        is_verdict(view, force, verdict),
        last_failed(view.evidence@, i),
    ensures
        names_kind(verdict.objections@, view.evidence@[i].kind@),
{
    let kinds = failed_kinds(view.evidence@);
    lemma_failed_kinds(view.evidence@);
    lemma_contained(view);
    lemma_objection_stands(view, force, verdict, Objection::FailedVerification(kinds));
}

/// Every criterion that is not met is objected to by name. Where force waives the
/// objection, it is on record as waived.
pub proof fn law_unmet_criteria_are_objected_to(
    view: TaskView,
    force: bool,
    verdict: FinishVerdict,
    i: int,
)
    requires
        is_verdict(view, force, verdict),
        0 <= i < view.goal.acceptance_criteria@.len(),
        !view.goal.acceptance_criteria@[i].met,
    ensures
        !force ==> !verdict.accepted && names_criterion(
            verdict.objections@,
            view.goal.acceptance_criteria@[i].description@,
        ),
        force ==> names_criterion(
            verdict.waived@,
            view.goal.acceptance_criteria@[i].description@,
        ),
{
    let criteria = unmet_criteria(view.goal.acceptance_criteria@);
    let open = |c: AcceptanceCriterion| !c.met;
    lemma_filter_map(
        view.goal.acceptance_criteria@,
        open,
        |c: AcceptanceCriterion| c.description@,
    );
    assert(open(view.goal.acceptance_criteria@[i]));
    assert(criteria.contains(view.goal.acceptance_criteria@[i].description@));
    lemma_contained(view);
    lemma_objection_stands(view, force, verdict, Objection::UnmetCriteria(criteria));
    law_a_task_completes_where_nothing_is_left(view, force, verdict);
}

/// Pending work, executions without an outcome, deltas that were neither taken
/// nor dropped, an open conflict and a change that no verification describes are
/// each objected to. Force waives the first alone, on record.
pub proof fn law_loose_ends_are_objected_to(view: TaskView, force: bool, verdict: FinishVerdict)
    requires
        is_verdict(view, force, verdict),
    ensures
        view.goal.pending_work@.len() > 0 ==> names_work(
            if force {
                verdict.waived@
            } else {
                verdict.objections@
            },
        ),
        view.outcome_unknown_executions@.len() > 0 ==> exists|k: int|
            0 <= k < verdict.objections@.len() && (
            #[trigger] verdict.objections@[k]) is OutcomeUnknownExecutions,
        view.unintegrated_workspaces@.len() > 0 ==> exists|k: int|
            0 <= k < verdict.objections@.len() && (
            #[trigger] verdict.objections@[k]) is UnintegratedWorkspaces,
        view.open_conflict_paths@.len() > 0 ==> exists|k: int|
            0 <= k < verdict.objections@.len() && (
            #[trigger] verdict.objections@[k]) is OpenConflict,
        view.changed_paths@.len() > 0 && (view.goal.last_verified_revision matches Some(revision)
            ==> revision.0@ != view.goal.current_revision.0@) ==> exists|k: int|
            0 <= k < verdict.objections@.len() && (
            #[trigger] verdict.objections@[k]) is StaleVerification,
{
    lemma_contained(view);
    if view.goal.pending_work@.len() > 0 {
        let it = Objection::PendingWork(titles_of(view.goal.pending_work@));
        lemma_objection_stands(view, force, verdict, it);
    }
    if view.outcome_unknown_executions@.len() > 0 {
        let it = Objection::OutcomeUnknownExecutions(view.outcome_unknown_executions@);
        lemma_objection_stands(view, force, verdict, it);
    }
    if view.unintegrated_workspaces@.len() > 0 {
        let it = Objection::UnintegratedWorkspaces(view.unintegrated_workspaces@);
        lemma_objection_stands(view, force, verdict, it);
    }
    if view.open_conflict_paths@.len() > 0 {
        let it = Objection::OpenConflict(views(view.open_conflict_paths@));
        lemma_objection_stands(view, force, verdict, it);
    }
    if view.verification_is_stale() {
        lemma_objection_stands(view, force, verdict, stale_objection(view));
    }
}

spec fn stale_objection(view: TaskView) -> Objection {
    Objection::StaleVerification(
        view.goal.current_revision.0@,
        match view.goal.last_verified_revision {
            Some(revision) => Some(revision.0@),
            None => None,
        },
    )
}

pub proof fn lemma_sum_contains<A>(a: Seq<A>, b: Seq<A>)
    ensures
        forall|x: A| #[trigger] (a + b).contains(x) <==> a.contains(x) || b.contains(x),
{
    assert forall|x: A| #[trigger] (a + b).contains(x) <==> a.contains(x) || b.contains(x) by {
        if a.contains(x) {
            let i = choose|i: int| 0 <= i < a.len() && a[i] == x;
            assert((a + b)[i] == x);
        }
        if b.contains(x) {
            let i = choose|i: int| 0 <= i < b.len() && b[i] == x;
            assert((a + b)[a.len() + i] == x);
        }
        if (a + b).contains(x) {
            let i = choose|i: int| 0 <= i < (a + b).len() && (a + b)[i] == x;
            if i < a.len() {
                assert(a[i] == x);
            } else {
                assert(b[i - a.len()] == x);
            }
        }
    }
}

proof fn lemma_raised(condition: bool, objection: Objection)
    ensures
        forall|x: Objection| #[trigger]
            raised(condition, objection).contains(x) <==> condition && x
                == objection,
{
    let it = raised(condition, objection);
    if condition {
        assert(it[0] == objection);
    }
}

/// What the objections against a task are.
proof fn lemma_contained(view: TaskView)
    ensures
        forall|x: Objection| #[trigger]
            view.objections().contains(x) <==> {
                ||| unresolved_agents(view.agents@).len() > 0 && x == Objection::UnresolvedAgents(
                    unresolved_agents(view.agents@),
                )
                ||| running_processes(view.processes@).len() > 0 && x
                    == Objection::RunningProcesses(running_processes(view.processes@))
                ||| view.outcome_unknown_executions@.len() > 0 && x
                    == Objection::OutcomeUnknownExecutions(view.outcome_unknown_executions@)
                ||| failed_kinds(view.evidence@).len() > 0 && x == Objection::FailedVerification(
                    failed_kinds(view.evidence@),
                )
                ||| view.unintegrated_workspaces@.len() > 0 && x
                    == Objection::UnintegratedWorkspaces(view.unintegrated_workspaces@)
                ||| view.open_conflict_paths@.len() > 0 && x == Objection::OpenConflict(
                    views(view.open_conflict_paths@),
                )
                ||| view.verification_is_stale() && x == stale_objection(view)
                ||| view.goal.pending_work@.len() > 0 && x == Objection::PendingWork(
                    titles_of(view.goal.pending_work@),
                )
                ||| unmet_criteria(view.goal.acceptance_criteria@).len() > 0 && x
                    == Objection::UnmetCriteria(unmet_criteria(view.goal.acceptance_criteria@))
            },
{
    let a = unresolved_agents(view.agents@);
    let p = running_processes(view.processes@);
    let f = failed_kinds(view.evidence@);
    let u = unmet_criteria(view.goal.acceptance_criteria@);
    let o1 = Objection::UnresolvedAgents(a);
    let o2 = Objection::RunningProcesses(p);
    let o3 = Objection::OutcomeUnknownExecutions(view.outcome_unknown_executions@);
    let o4 = Objection::FailedVerification(f);
    let o5 = Objection::UnintegratedWorkspaces(view.unintegrated_workspaces@);
    let o6 = Objection::OpenConflict(views(view.open_conflict_paths@));
    let o7 = stale_objection(view);
    let o8 = Objection::PendingWork(titles_of(view.goal.pending_work@));
    let o9 = Objection::UnmetCriteria(u);
    lemma_raised(a.len() > 0, o1);
    lemma_raised(p.len() > 0, o2);
    lemma_raised(view.outcome_unknown_executions@.len() > 0, o3);
    lemma_raised(f.len() > 0, o4);
    lemma_raised(view.unintegrated_workspaces@.len() > 0, o5);
    lemma_raised(view.open_conflict_paths@.len() > 0, o6);
    lemma_raised(view.verification_is_stale(), o7);
    lemma_raised(view.goal.pending_work@.len() > 0, o8);
    lemma_raised(u.len() > 0, o9);
    let s1 = raised(a.len() > 0, o1);
    let r2 = raised(p.len() > 0, o2);
    let r3 = raised(view.outcome_unknown_executions@.len() > 0, o3);
    let r4 = raised(f.len() > 0, o4);
    let r5 = raised(view.unintegrated_workspaces@.len() > 0, o5);
    let r6 = raised(view.open_conflict_paths@.len() > 0, o6);
    let r7 = raised(view.verification_is_stale(), o7);
    let r8 = raised(view.goal.pending_work@.len() > 0, o8);
    let r9 = raised(u.len() > 0, o9);
    lemma_sum_contains(s1, r2);
    lemma_sum_contains(s1 + r2, r3);
    lemma_sum_contains(s1 + r2 + r3, r4);
    lemma_sum_contains(s1 + r2 + r3 + r4, r5);
    lemma_sum_contains(s1 + r2 + r3 + r4 + r5, r6);
    lemma_sum_contains(s1 + r2 + r3 + r4 + r5 + r6, r7);
    lemma_sum_contains(s1 + r2 + r3 + r4 + r5 + r6 + r7, r8);
    lemma_sum_contains(s1 + r2 + r3 + r4 + r5 + r6 + r7 + r8, r9);
    assert(view.objections() == s1 + r2 + r3 + r4 + r5 + r6 + r7 + r8 + r9);
}

/// What is objected to is so.
pub proof fn law_objections_are_true(
    view: TaskView,
    force: bool,
    verdict: FinishVerdict,
    k: int,
)
    requires
        is_verdict(view, force, verdict),
        0 <= k < verdict.objections@.len(),
    ensures
        is_so(view, verdict.objections@[k]),
{
    let objection = verdict.objections@[k];
    assert(view.objections().contains(objection@)) by {
        lemma_picked(view.objections(), force, verdict, k);
    }
    lemma_is_so(view, objection);
}

/// What is on record as waived is so. Only pending work and unmet criteria are
/// ever waived, and only by force.
pub proof fn law_waived_objections_are_true(
    view: TaskView,
    force: bool,
    verdict: FinishVerdict,
    k: int,
)
    requires
        is_verdict(view, force, verdict),
        0 <= k < verdict.waived@.len(),
    ensures
        force,
        verdict.waived@[k] is PendingWork || verdict.waived@[k] is UnmetCriteria,
        is_so(view, verdict.waived@[k]),
{
    lemma_waived_is_so(view, view.objections(), force, verdict, k);
}

proof fn lemma_waived_is_so(
    view: TaskView,
    all: Seq<Objection>,
    force: bool,
    verdict: FinishVerdict,
    k: int,
)
    requires
        all == view.objections(),
        objection_views(verdict.objections@) == if force {
            all.filter(|o: Objection| !o.overridable())
        } else {
            all
        },
        objection_views(verdict.waived@) == if force {
            all.filter(|o: Objection| o.overridable())
        } else {
            Seq::empty()
        },
        0 <= k < verdict.waived@.len(),
    ensures
        force,
        verdict.waived@[k]@.overridable(),
        is_so(view, verdict.waived@[k]),
{
    lemma_picked(all, force, verdict, k);
    lemma_is_so(view, verdict.waived@[k]);
}

proof fn lemma_picked(all: Seq<Objection>, force: bool, verdict: FinishVerdict, k: int)
    requires
        objection_views(verdict.objections@) == if force {
            all.filter(|o: Objection| !o.overridable())
        } else {
            all
        },
        objection_views(verdict.waived@) == if force {
            all.filter(|o: Objection| o.overridable())
        } else {
            Seq::empty()
        },
    ensures
        0 <= k < verdict.objections@.len() ==> all.contains(verdict.objections@[k]@),
        0 <= k < verdict.waived@.len() ==> force && all.contains(verdict.waived@[k]@)
            && verdict.waived@[k]@.overridable(),
{
    let keep = |o: Objection| !o.overridable();
    let waive = |o: Objection| o.overridable();
    if 0 <= k < verdict.objections@.len() {
        let x = verdict.objections@[k]@;
        assert(objection_views(verdict.objections@)[k] == x);
        if force {
            all.lemma_filter_contains_rev(keep, x);
        }
    }
    if 0 <= k < verdict.waived@.len() {
        let x = verdict.waived@[k]@;
        assert(objection_views(verdict.waived@).len() == verdict.waived@.len());
        assert(objection_views(verdict.waived@)[k] == x);
        all.lemma_filter_pred(waive, k);
        all.lemma_filter_contains_rev(waive, x);
    }
}

proof fn lemma_is_so(view: TaskView, objection: FinishObjection)
    requires
        view.objections().contains(objection@),
    ensures
        is_so(view, objection),
{
    lemma_contained(view);
    match objection {
        FinishObjection::UnresolvedAgents { agents } => {
            let live = |a: AgentRecord| !a.state.terminal();
            let pick = |a: AgentRecord| a.agent;
            lemma_filter_map(view.agents@, live, pick);
            let some = view.agents@.filter(live);
            assert(agents@ =~= some.map_values(pick));
            assert forall|m: int| 0 <= m < agents@.len() implies exists|i: int|
                0 <= i < view.agents@.len() && at_work((#[trigger] view.agents@[i]).state)
                    && view.agents@[i].agent == #[trigger] agents@[m] by {
                assert(agents@[m] == pick(some[m]));
                let i = choose|i: int|
                    0 <= i < view.agents@.len() && #[trigger] view.agents@[i] == some[m] && live(
                        view.agents@[i],
                    );
                assert(at_work(view.agents@[i].state));
            }
        },
        FinishObjection::RunningProcesses { processes } => {
            let runs = |p: ProcessRecord| p.state@ == "running"@;
            let pick = |p: ProcessRecord| p.process;
            lemma_filter_map(view.processes@, runs, pick);
            let some = view.processes@.filter(runs);
            assert(processes@ =~= some.map_values(pick));
            assert forall|m: int| 0 <= m < processes@.len() implies exists|i: int|
                0 <= i < view.processes@.len() && (#[trigger] view.processes@[i]).state@
                    == "running"@ && view.processes@[i].process == #[trigger] processes@[m] by {
                assert(processes@[m] == pick(some[m]));
                let i = choose|i: int|
                    0 <= i < view.processes@.len() && #[trigger] view.processes@[i] == some[m]
                        && runs(view.processes@[i]);
                assert(view.processes@[i].state@ == "running"@);
            }
        },
        FinishObjection::FailedVerification { kinds } => {
            lemma_failed_kinds(view.evidence@);
            assert forall|m: int| 0 <= m < kinds@.len() implies exists|i: int|
                #[trigger] last_failed(view.evidence@, i) && view.evidence@[i].kind@
                    == (#[trigger] kinds@[m])@ by {
                assert(views(kinds@)[m] == kinds@[m]@);
                let i = choose|i: int|
                    last_failed(view.evidence@, i) && view.evidence@[i].kind@ == failed_kinds(
                        view.evidence@,
                    )[m];
                assert(last_failed(view.evidence@, i));
            }
        },
        FinishObjection::PendingWork { items } => {
            assert(views(items@).len() == items@.len());
            assert(titles_of(view.goal.pending_work@).len() == view.goal.pending_work@.len());
            assert forall|m: int| 0 <= m < items@.len() implies (#[trigger] items@[m])@
                == view.goal.pending_work@[m].title@ by {
                assert(views(items@)[m] == items@[m]@);
                assert(titles_of(view.goal.pending_work@)[m]
                    == view.goal.pending_work@[m].title@);
            }
        },
        FinishObjection::UnmetCriteria { criteria } => {
            let all = view.goal.acceptance_criteria@;
            let open = |c: AcceptanceCriterion| !c.met;
            let pick = |c: AcceptanceCriterion| c.description@;
            lemma_filter_map(all, open, pick);
            let some = all.filter(open);
            assert(views(criteria@) =~= some.map_values(pick));
            assert forall|m: int| 0 <= m < criteria@.len() implies exists|i: int|
                0 <= i < view.goal.acceptance_criteria@.len() && !(
                #[trigger] view.goal.acceptance_criteria@[i]).met
                    && view.goal.acceptance_criteria@[i].description@ == (
                #[trigger] criteria@[m])@ by {
                assert(views(criteria@)[m] == criteria@[m]@);
                assert(views(criteria@)[m] == pick(some[m]));
                let i = choose|i: int|
                    0 <= i < all.len() && #[trigger] all[i] == some[m] && open(all[i]);
                assert(!view.goal.acceptance_criteria@[i].met);
            }
        },
        FinishObjection::OpenConflict { paths } => {
            assert(views(paths@).len() == paths@.len());
            assert(views(view.open_conflict_paths@).len() == view.open_conflict_paths@.len());
            assert forall|m: int| 0 <= m < paths@.len() implies (#[trigger] paths@[m])@
                == view.open_conflict_paths@[m]@ by {
                assert(views(paths@)[m] == paths@[m]@);
                assert(views(view.open_conflict_paths@)[m] == view.open_conflict_paths@[m]@);
            }
        },
        _ => {},
    }
}

} // verus!
