//! When workers are spawned, what becomes of their work, and what is said of them.
use vstd::prelude::*;
use crate::agent::{AgentError, TaskOutcome};
use crate::delegation::{is_failure, is_profile, join_calls, known_profile, profile_access, profile_turns, reports, AgentAccess, AgentProfile, AgentSpawnOptions, AgentStatus, DelegateResult, DelegationBudget, IntegrationResponse};
use crate::goal::titles_of;
use crate::host::{context_given, discard_refusal, integrate_refusal, is_refused, owner_of, recorded_state, records_applied, records_conflict, send_refusal, settled_agents, shows_record, spawn_refusal, WorkerEnd, MAX_CONTEXT_BYTES};
use crate::hostline::DelegationCall;
use crate::identity::{AgentId, IsolatedWorkspaceId, ProcessId, RevisionId, TaskId};
use crate::json::Json;
use crate::laws::completion::at_work;
use crate::ptc::runtime::PtcExecution;
use crate::runtime::{Slots, WorkerSnapshot};
use crate::session::{AgentRecord, ProcessRecord, RevisionSource, SessionEvent, TaskView};
use crate::text::{byte_len, views};

verus! {

/// Whether a name is that of a profile.
pub open spec fn is_profile_name(name: Seq<char>) -> bool {
    name == "explore"@ || name == "implement"@ || name == "review"@ || name == "test"@
}

proof fn lemma_profiles()
    ensures
        "explore"@ != "implement"@,
        "explore"@ != "review"@,
        "explore"@ != "test"@,
        "implement"@ != "review"@,
        "implement"@ != "test"@,
        "review"@ != "test"@,
{
    reveal_strlit("explore");
    reveal_strlit("implement");
    reveal_strlit("review");
    reveal_strlit("test");
    assert("explore"@[0] == 'e' && "implement"@[0] == 'i' && "review"@[0] == 'r' && "test"@[0]
        == 't');
}

/// The task itself may spawn a worker exactly where it says what the worker may
/// do, names a profile that exists if it names one, and has room under both of its
/// budgets.
pub proof fn law_a_task_may_spawn_within_its_budgets(
    parent: AgentId,
    options: AgentSpawnOptions,
    slots: Slots,
    budget: DelegationBudget,
)
    requires
        parent.0 == 0,
    ensures
        spawn_refusal(parent, options, slots, budget) is None <==> (options.profile matches Some(
            name,
        ) ==> is_profile_name(name@)) && (options.access is Some || options.profile is Some)
            && slots.workers_started < budget.max_children && slots.workers_started
            < budget.max_parallel_children,
{
}

/// What a worker may do is what it was given, and else what its profile says: to
/// explore and to review is to read, to implement and to test is to write in a
/// workspace of its own.
pub proof fn law_a_worker_may_do_what_it_was_given(
    options: AgentSpawnOptions,
    access: AgentAccess,
    name: String,
)
    ensures
        options.access == Some(access) ==> options.effective_access() == Some(access),
        options.access is None && options.profile is None ==> options.effective_access() is None,
        options.access is None && options.profile == Some(name) ==> options.effective_access()
            == Some(profile_access(name@)),
        profile_access("explore"@) == AgentAccess::Read,
        profile_access("review"@) == AgentAccess::Read,
        profile_access("implement"@) == AgentAccess::IsolatedWrite,
        profile_access("test"@) == AgentAccess::IsolatedWrite,
        known_profile(name@) <==> is_profile_name(name@),
        options.names_unknown_profile() <==> (options.profile matches Some(n) && !is_profile_name(
            n@,
        )),
{
    lemma_profiles();
}

/// A profile is the one that was asked for.
pub proof fn law_a_profile_is_the_one_asked_for(p: AgentProfile, name: Seq<char>)
    requires
        is_profile(p, name),
    ensures
        p.name@ == name,
        is_profile_name(name),
        p.access == profile_access(name),
        profile_turns("explore"@) == 12,
        profile_turns("implement"@) == 24,
        profile_turns("review"@) == 12,
        profile_turns("test"@) == 16,
        p.max_turns_per_window == profile_turns(name),
{
    lemma_profiles();
}

/// The task may integrate a workspace, or discard it, where the workspace can be
/// forked at all and no worker is still at work in it.
pub proof fn law_a_task_may_take_or_drop_a_settled_workspace(
    parent: AgentId,
    can_isolate: bool,
    owner: Option<AgentRecord>,
    workspace: IsolatedWorkspaceId,
)
    requires
        parent.0 == 0,
    ensures
        integrate_refusal(parent, can_isolate, owner, workspace) is None <==> can_isolate && (
        owner matches Some(record) ==> !at_work(record.state)),
        discard_refusal(parent, can_isolate, owner, workspace) is None <==> can_isolate && (
        owner matches Some(record) ==> !at_work(record.state)),
{
}

/// A message reaches a worker as long as it is at work.
pub proof fn law_a_message_reaches_a_worker_at_work(agent: AgentId, record: AgentRecord)
    ensures
        send_refusal(agent, None) is Some,
        send_refusal(agent, Some(record)) is None <==> at_work(record.state),
{
}

/// The owner of a workspace is the first worker that was given it.
pub proof fn law_a_workspace_is_its_workers(
    agents: Seq<AgentRecord>,
    workspace: IsolatedWorkspaceId,
    i: int,
)
    ensures
        0 <= i < agents.len() && agents[i].isolated_workspace == Some(workspace) && (forall|j: int|
            0 <= j < i ==> (#[trigger] agents[j]).isolated_workspace != Some(workspace))
            ==> owner_of(agents, workspace) == Some(agents[i]),
        (forall|j: int|
            0 <= j < agents.len() ==> (#[trigger] agents[j]).isolated_workspace != Some(workspace))
            ==> owner_of(agents, workspace) is None,
    decreases agents.len(),
{
    if agents.len() > 0 {
        let rest = agents.skip(1);
        law_a_workspace_is_its_workers(rest, workspace, i - 1);
        assert forall|j: int| 0 <= j < rest.len() implies (#[trigger] rest[j]) == agents[j + 1] by {}
    }
}

/// The processes that are ended before a finish are those of the workers that have
/// settled, and of no other.
pub proof fn law_only_settled_workers_are_reaped(
    workers: Seq<WorkerSnapshot>,
    worker: WorkerSnapshot,
)
    ensures
        settled_agents(Seq::empty()) == Seq::<AgentId>::empty(),
        !at_work(worker.state) ==> settled_agents(workers.push(worker)) == settled_agents(
            workers,
        ).push(worker.agent),
        at_work(worker.state) ==> settled_agents(workers.push(worker)) == settled_agents(workers),
{
    assert(workers.push(worker).drop_last() =~= workers);
}

/// The recorded state of a process is that of the first record with its number.
pub proof fn law_a_recorded_process_is_found(
    records: Seq<ProcessRecord>,
    id: ProcessId,
    i: int,
)
    ensures
        0 <= i < records.len() && records[i].process == id && (forall|j: int|
            0 <= j < i ==> (#[trigger] records[j]).process != id) ==> recorded_state(records, id)
            == Some(records[i].state@),
        (forall|j: int| 0 <= j < records.len() ==> (#[trigger] records[j]).process != id)
            ==> recorded_state(records, id) is None,
    decreases records.len(),
{
    if records.len() > 0 {
        let rest = records.skip(1);
        law_a_recorded_process_is_found(rest, id, i - 1);
        assert forall|j: int| 0 <= j < rest.len() implies (#[trigger] rest[j]) == records[j + 1] by {}
    }
}

/// A worker ends at the revision its workspace was settled at, where it had one of
/// its own, and with what it said last, or with why it failed.
pub proof fn law_a_worker_ends_where_it_stands(
    end: WorkerEnd,
    workspace: IsolatedWorkspaceId,
    revision: RevisionId,
    said: String,
    error: AgentError,
)
    ensures
        end.finalized == Some((workspace, revision)) ==> end.final_revision() == revision,
        end.finalized is None ==> end.final_revision() == end.recorded_revision,
        end.outcome == Ok::<TaskOutcome, AgentError>(TaskOutcome::Completed(said)) ==> end.summary()
            == said@,
        end.outcome == Ok::<TaskOutcome, AgentError>(TaskOutcome::AwaitingUser(said))
            ==> end.summary() == said@,
        end.outcome == Err::<TaskOutcome, AgentError>(AgentError::Cancelled) ==> end.summary()
            == "cancelled"@,
        end.outcome == Err::<TaskOutcome, AgentError>(error) && !(error is Cancelled)
            ==> end.summary() == error.text(),
{
}

/// A worker gets the context that it was given, whole or not at all.
pub proof fn law_a_context_is_given_whole(given: Json, context: Json)
    requires
        context_given(given, context),
    ensures
        byte_len(context.compact()) <= MAX_CONTEXT_BYTES ==> given == context,
        byte_len(context.compact()) > MAX_CONTEXT_BYTES ==> given.text@ == "{\"bytes\":"@
            + crate::text::decimal(byte_len(context.compact())) + ",\"truncated\":true}"@,
{
}

/// An integration that was applied is journaled as a change of the parent, from
/// the revision before to the one after, with the paths that changed, under the
/// worker whose work it was.
pub proof fn law_an_applied_integration_is_journaled(
    events: Seq<SessionEvent>,
    parent: PtcExecution,
    owner: AgentId,
    before: RevisionId,
    after: RevisionId,
    changed: Seq<String>,
)
    requires
        records_applied(events, parent, owner, before, after, changed),
    ensures
        events.len() == 2,
        events[0].owner() == Some(parent.task_id),
        events[1].owner() == Some(parent.task_id),
        events[0] matches SessionEvent::WorkspaceRevisionChanged { from, to, added, .. } && from
            == before && to == after && added@ == changed,
        events[1] matches SessionEvent::IntegrationCompleted {
            agent,
            parent_revision,
            changed_paths,
            ..
        } && agent == owner && parent_revision == after && changed_paths@ == changed,
{
}

/// A conflict is journaled with the paths it is over, and changes nothing.
pub proof fn law_a_conflict_is_journaled(
    events: Seq<SessionEvent>,
    parent: PtcExecution,
    owner: AgentId,
    base: RevisionId,
    current: RevisionId,
    paths: Seq<String>,
)
    requires
        records_conflict(events, parent, owner, base, current, paths),
    ensures
        events.len() == 1,
        events[0].owner() == Some(parent.task_id),
        events[0] matches SessionEvent::IntegrationConflict {
            agent,
            child_base,
            parent_current,
            paths: over,
            ..
        } && agent == owner && child_base == base && parent_current == current && over@ == paths,
{
}

/// A worker that did not do its work is reported as a failure that changed
/// nothing, and a refused integration as one that did nothing.
pub proof fn law_a_failure_changed_nothing(
    r: DelegateResult,
    task_id: TaskId,
    agent: AgentId,
    revision: RevisionId,
    summary: Seq<char>,
    response: IntegrationResponse,
)
    ensures
        is_failure(r, task_id, agent, revision, summary) ==> !r.ok && !r.changed && r.task_id
            == task_id && r.agent == agent && r.summary@ == summary && r.base_revision.0@
            == r.final_revision.0@ && r.base_revision == revision && r.workspace is None,
        is_refused(response, summary) ==> !response.ok && !response.conflict
            && response.paths@.len() == 0 && (response.error matches Some(e) && e@ == summary),
{
}

/// What a batch reports of a request is the worker's own result, where the worker
/// was started and joined, and else a failure with the error of the step that
/// failed.
pub proof fn law_a_batch_reports_what_became_of_each(
    status: AgentStatus,
    result: DelegateResult,
    error: String,
    joined: Result<DelegateResult, String>,
    revision: RevisionId,
    r: DelegateResult,
)
    ensures
        reports(Ok(status), Ok(result), revision, r) ==> r == result,
        reports(Ok(status), Err(error), revision, r) ==> !r.ok && r.summary@ == error@ && r.agent
            == status.agent && r.task_id == status.task_id,
        reports(Err(error), joined, revision, r) ==> !r.ok && r.summary@ == error@ && r.agent.0
            == 0 && r.task_id.0 == 0,
{
}

/// What is shown of a worker is what the journal says of it.
pub proof fn law_a_recorded_worker_is_shown_as_it_is(
    shown: AgentStatus,
    record: AgentRecord,
    view: TaskView,
)
    requires
        shows_record(shown, record, view),
    ensures
        shown.agent == record.agent,
        shown.task_id == record.task_id,
        shown.state == record.state,
        shown.objective@ == record.objective@,
        shown.access == record.access,
        shown.done <==> !at_work(record.state),
        shown.result is Some <==> record.result is Some,
        shown.window == view.window,
        shown.current_revision == Some(view.goal.current_revision),
        shown.next_actions@ == view.goal.next_actions@,
{
}

/// What an integration brings counts as added by a tool, and the rest of the
/// change is empty.
pub proof fn law_an_integration_is_the_work_of_a_tool(
    events: Seq<SessionEvent>,
    parent: PtcExecution,
    owner: AgentId,
    before: RevisionId,
    after: RevisionId,
    changed: Seq<String>,
)
    requires
        records_applied(events, parent, owner, before, after, changed),
    ensures
        events[0] matches SessionEvent::WorkspaceRevisionChanged {
            execution_id,
            modified,
            deleted,
            source,
            isolated_workspace,
            ..
        } && execution_id == Some(parent.execution_id) && modified@.len() == 0 && deleted@.len()
            == 0 && source == RevisionSource::Tool && isolated_workspace is None,
        events[1] matches SessionEvent::IntegrationCompleted { execution_id, .. } && execution_id
            == parent.execution_id,
{
}

/// In a batch a join follows for every worker that started, in order, and for no
/// other.
pub proof fn law_every_started_worker_is_joined(
    spawned: Seq<Result<AgentStatus, String>>,
    joined: Seq<Result<DelegateResult, String>>,
    status: AgentStatus,
    error: String,
    answer: Result<DelegateResult, String>,
)
    ensures
        join_calls(Seq::empty(), Seq::empty()) == Seq::<DelegationCall>::empty(),
        join_calls(spawned.push(Ok(status)), joined.push(answer)) == join_calls(
            spawned,
            joined,
        ).push(DelegationCall::Join { agent: status.agent, answer }),
        join_calls(spawned.push(Err(error)), joined.push(answer)) == join_calls(spawned, joined),
{
    assert(spawned.push(Ok(status)).drop_last() =~= spawned);
    assert(spawned.push(Err(error)).drop_last() =~= spawned);
    assert(joined.push(answer).drop_last() =~= joined);
}

/// What is shown of a worker includes its profile, what it has left to do and how
/// far it has got, and a refused integration says nothing but why.
pub proof fn law_what_is_shown_is_complete(
    shown: AgentStatus,
    record: AgentRecord,
    view: TaskView,
    i: int,
    response: IntegrationResponse,
    why: Seq<char>,
)
    ensures
        shows_record(shown, record, view) ==> shown.profile == record.profile
            && shown.turns_in_window == view.turns_in_window && shown.pending@.len()
            == view.goal.pending_work@.len(),
        shows_record(shown, record, view) && 0 <= i < shown.pending@.len() ==> shown.pending@[i]@
            == view.goal.pending_work@[i].title@,
        is_refused(response, why) ==> response.previous_revision is None
            && response.parent_revision is None && response.child_base is None
            && response.parent_current is None && !response.requires_reverification,
{
    let a = views(shown.pending@);
    let b = titles_of(view.goal.pending_work@);
    assert(a.len() == shown.pending@.len());
    assert(b.len() == view.goal.pending_work@.len());
    if 0 <= i < shown.pending@.len() {
        assert(a[i] == shown.pending@[i]@);
        if i < view.goal.pending_work@.len() {
            assert(b[i] == view.goal.pending_work@[i].title@);
        }
    }
}

} // verus!
