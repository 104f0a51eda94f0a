//! What the agent runtime answers to the programs of its agents: workers,
//! isolated workspaces, goals and completion, processes.
use vstd::prelude::*;
use vstd::string::StringExecFns;
use crate::agent::{AgentError, TaskOutcome};
use crate::delegation::{batch_delegated, copy_answer, delegated, is_failure, is_profile, join_calls, may_answer, profile, profile_turns, reports, same_answer, spawn_calls, AgentAccess, AgentProfile, AgentSpawnOptions, AgentState, AgentStatus, DelegateResult, DelegationBudget, DelegationHost, IntegrationResponse};
use crate::goal::{titles, titles_of, FinishRequest, FinishVerdict, GoalUpdate, TaskStatus};
use crate::hostline::DelegationCall;
use crate::identity::{copy_text, AgentId, IsolatedWorkspaceId, ProcessId, RevisionId, TaskId};
use crate::isolation::{IntegrationResult, IsolatedWorkspaceRecord, IsolationError};
use crate::json::{quote, quoted, Json};
use crate::laws::completion::is_verdict;
use crate::process::{ProcessSnapshot, ProcessState};
use crate::ptc::calls::{named_error, shows_entry};
use crate::ptc::runtime::PtcExecution;
use crate::runtime::{bounded_context, process_state_label, record_process_state, records_state, slots_refusal, state_name, too_large, unknown_agent, worker_limit, Slots, WorkerSnapshot};
use crate::session::{objection_views, remaining, Objection, validate_finish, AgentRecord, EvidenceRecord, ProcessRecord, RevisionSource, SessionError, SessionEvent, TaskView};
use crate::text::{byte_len, copy_strings, decimal, decimal_text, opt_view, same, text, views};

verus! {

/// The most that a parent hands to a worker as context, in bytes.
pub const MAX_CONTEXT_BYTES: usize = 8192;

/// The access of a worker; the root agent has none to look up.
pub fn worker_access(agent: AgentId, record: Option<&AgentRecord>) -> (r: Option<AgentAccess>)
    ensures
        r == if agent.0 != 0 && record is Some {
            Some((record->0).access)
        } else {
            None
        },
{
    if agent.is_root() {
        return None;
    }
    match record {
        Some(record) => Some(record.access),
        None => None,
    }
}

/// The isolated workspace of a worker.
pub fn worker_workspace_id(agent: AgentId, record: Option<&AgentRecord>) -> (r: Option<
    IsolatedWorkspaceId,
>)
    ensures
        r == if agent.0 != 0 && record is Some {
            (record->0).isolated_workspace
        } else {
            None
        },
{
    if agent.is_root() {
        return None;
    }
    match record {
        Some(record) => record.isolated_workspace,
        None => None,
    }
}

/// Where a worker executes: in its isolated workspace where it has one, else in
/// the workspace of its parent. `loaded` is what the store says of the isolated
/// one; without a store there is none.
pub fn worker_workspace(
    workspace: Option<IsolatedWorkspaceId>,
    root: &str,
    loaded: Option<Result<IsolatedWorkspaceRecord, IsolationError>>,
) -> (r: Result<String, AgentError>)
    ensures
        match (workspace, loaded) {
            (None, _) => r matches Ok(path) && path@ == root@,
            (Some(_), None) => r matches Err(AgentError::Session(SessionError::State(m))) && m@
                == "isolated-write requires a Git-root workspace"@,
            (Some(_), Some(Ok(record))) => r == Ok::<String, AgentError>(record.path),
            (Some(_), Some(Err(e))) => r matches Err(AgentError::Session(SessionError::State(m)))
                && m@ == e.text(),
        },
{
    match workspace {
        None => Ok(text(root)),
        Some(_) => match loaded {
            None => Err(
                AgentError::Session(
                    SessionError::State(text("isolated-write requires a Git-root workspace")),
                ),
            ),
            Some(Ok(record)) => Ok(record.path),
            Some(Err(e)) => Err(AgentError::Session(SessionError::State(e.message()))),
        },
    }
}

/// Whether an agent may write: a worker that only reads may not.
pub fn may_write(access: Option<AgentAccess>) -> (r: bool)
    ensures
        r == !(access == Some(AgentAccess::Read)),
{
    match access {
        Some(AgentAccess::Read) => false,
        _ => true,
    }
}

/// Whether a status says what is recorded of a worker and of its task.
pub open spec fn shows_record(r: AgentStatus, record: AgentRecord, view: TaskView) -> bool {
    &&& r.agent == record.agent
    &&& r.task_id == record.task_id
    &&& r.state == record.state
    &&& r.objective == record.objective
    &&& r.access == record.access
    &&& r.profile == record.profile
    &&& r.done == record.state.terminal()
    &&& r.window == view.window
    &&& r.turns_in_window == view.turns_in_window
    &&& same_answer(r.result, record.result)
    &&& views(r.pending@) == titles_of(view.goal.pending_work@)
    &&& r.next_actions@ == view.goal.next_actions@
    &&& r.current_revision == Some(view.goal.current_revision)
}

/// The status of a worker that only the journal knows.
pub fn recorded_status(record: &AgentRecord, view: &TaskView) -> (r: AgentStatus)
    ensures
        shows_record(r, *record, *view),
{
    AgentStatus {
        agent: record.agent,
        task_id: record.task_id,
        state: record.state,
        objective: record.objective.clone(),
        access: record.access,
        profile: copy_text(&record.profile),
        done: record.state.is_terminal(),
        window: view.window,
        turns_in_window: view.turns_in_window,
        result: copy_answer(&record.result),
        pending: titles(&view.goal.pending_work),
        next_actions: copy_strings(&view.goal.next_actions),
        current_revision: Some(view.goal.current_revision.clone()),
    }
}

/// The status of a worker: of the live one where there is one, else of what the
/// journal records, so that a worker of a previous runtime still reports
/// honestly. `view` is what the journal says of the worker's task.
pub fn status(
    agent: AgentId,
    live: Option<&WorkerSnapshot>,
    record: Option<&AgentRecord>,
    view: &TaskView,
) -> (r: Result<AgentStatus, String>)
    ensures
        match (live, record) {
            (Some(worker), _) => r matches Ok(s) && s.agent == worker.agent && s.task_id
                == worker.task_id && s.state == worker.state && s.done == worker.state.terminal()
                && s.objective == worker.objective && s.access == worker.access && s.profile
                == worker.profile && same_answer(s.result, worker.result) && s.window == view.window
                && s.turns_in_window == view.turns_in_window && views(s.pending@) == titles_of(
                view.goal.pending_work@,
            ) && s.next_actions@ == view.goal.next_actions@ && s.current_revision == Some(
                view.goal.current_revision,
            ),
            (None, Some(record)) => r matches Ok(s) && shows_record(s, *record, *view),
            (None, None) => r matches Err(m) && m@ == unknown_agent(agent),
        },
{
    match live {
        Some(worker) => {
            return Ok(worker.status(view));
        },
        None => {},
    }
    match record {
        Some(record) => Ok(recorded_status(record, view)),
        None => {
            let mut s = text("unknown agent ");
            s.append(decimal_text(agent.0).as_str());
            Err(s)
        },
    }
}

/// Why a program may not spawn a worker, where it may not: it is a worker's
/// itself, its options do not resolve, or the budget is used up.
pub open spec fn spawn_refusal(
    parent: AgentId,
    options: AgentSpawnOptions,
    slots: Slots,
    budget: DelegationBudget,
) -> Option<Seq<char>> {
    if parent.0 != 0 {
        Some("unavailable in a delegated worker"@)
    } else if options.names_unknown_profile() {
        Some(crate::delegation::unknown_profile_message(options.profile->0@))
    } else if options.effective_access() is None {
        Some("agent_spawn: access or profile is required"@)
    } else if slots.workers_started >= worker_limit(budget) {
        Some(slots_refusal(worker_limit(budget)))
    } else {
        None
    }
}

/// Whether a program may spawn a worker; if so, a slot is taken, and the access
/// and the profile are resolved.
pub fn agent_spawn(
    parent: AgentId,
    options: &AgentSpawnOptions,
    slots: &mut Slots,
    budget: &DelegationBudget,
) -> (r: Result<(AgentAccess, Option<AgentProfile>), String>)
    ensures
        final(slots).next_workspace == old(slots).next_workspace,
        match r {
            Ok(v) => {
                &&& spawn_refusal(parent, *options, *old(slots), *budget) is None
                &&& Some(v.0) == options.effective_access()
                &&& match options.profile {
                    Some(name) => v.1 matches Some(p) && is_profile(p, name@),
                    None => v.1 is None,
                }
                &&& final(slots).workers_started == old(slots).workers_started + 1
                &&& final(slots).workers_started <= worker_limit(*budget)
            },
            Err(m) => spawn_refusal(parent, *options, *old(slots), *budget) == Some(m@)
                && final(slots).workers_started == old(slots).workers_started,
        },
{
    if !parent.is_root() {
        return Err(text("unavailable in a delegated worker"));
    }
    let resolved = match options.resolve() {
        Ok(resolved) => resolved,
        Err(m) => {
            return Err(m);
        },
    };
    match slots.reserve_worker_slot(budget) {
        Ok(_) => Ok(resolved),
        Err(m) => Err(m),
    }
}

/// Delegation is one level deep: a worker spawns, integrates and discards nothing,
/// whatever it asks for and however things stand. Whichever of these its program
/// called, the refusal that it sees names that call. One that it sees in the
/// entries of a batch does so too.
pub proof fn law_delegation_is_one_level_deep(
    parent: AgentId,
    options: AgentSpawnOptions,
    slots: Slots,
    budget: DelegationBudget,
    can_isolate: bool,
    owner: Option<AgentRecord>,
    workspace: IsolatedWorkspaceId,
    revision: RevisionId,
    entry: DelegateResult,
    shown: DelegateResult,
)
    requires
        parent.0 != 0,
    ensures
        spawn_refusal(parent, options, slots, budget) is Some,
        named_error("agent_spawn"@, spawn_refusal(parent, options, slots, budget)->0)
            == "agent_spawn: unavailable in a delegated worker"@,
        named_error("delegate"@, spawn_refusal(parent, options, slots, budget)->0)
            == "delegate: unavailable in a delegated worker"@,
        is_failure(
            entry,
            TaskId(0),
            AgentId(0),
            revision,
            spawn_refusal(parent, options, slots, budget)->0,
        ) && shows_entry("delegate_batch"@, entry, shown) ==> is_failure(
            shown,
            TaskId(0),
            AgentId(0),
            revision,
            "delegate_batch: unavailable in a delegated worker"@,
        ),
        integrate_refusal(parent, can_isolate, owner, workspace) is Some,
        named_error("integrate"@, integrate_refusal(parent, can_isolate, owner, workspace)->0)
            == "integrate: unavailable in a delegated worker"@,
        discard_refusal(parent, can_isolate, owner, workspace) is Some,
        named_error("discard"@, discard_refusal(parent, can_isolate, owner, workspace)->0)
            == "discard: unavailable in a delegated worker"@,
{
    reveal_strlit("unavailable in a delegated worker");
    reveal_strlit(": ");
    reveal_strlit("agent_spawn");
    reveal_strlit("agent_spawn: unavailable in a delegated worker");
    reveal_strlit("delegate");
    reveal_strlit("delegate: unavailable in a delegated worker");
    reveal_strlit("delegate_batch");
    reveal_strlit("delegate_batch: unavailable in a delegated worker");
    reveal_strlit("integrate");
    reveal_strlit("integrate: unavailable in a delegated worker");
    reveal_strlit("discard");
    reveal_strlit("discard: unavailable in a delegated worker");
    let refusal = "unavailable in a delegated worker"@;
    assert(refusal.subrange(0, 11)[0] != "agent_spawn"@[0]);
    assert(refusal.subrange(0, 8)[0] != "delegate"@[0]);
    assert(refusal.subrange(0, 14)[0] != "delegate_batch"@[0]);
    assert("agent_spawn"@ + ": "@ + refusal =~= "agent_spawn: unavailable in a delegated worker"@);
    assert("delegate"@ + ": "@ + refusal =~= "delegate: unavailable in a delegated worker"@);
    assert("delegate_batch"@ + ": "@ + refusal
        =~= "delegate_batch: unavailable in a delegated worker"@);
    assert("integrate: unavailable in a delegated worker"@.subrange(0, 9) =~= "integrate"@);
    assert("discard: unavailable in a delegated worker"@.subrange(0, 7) =~= "discard"@);
}

/// Whether a host answers every spawn request of a program with the refusal that
/// an agent of that number gets.
pub open spec fn refuses_spawns<H: DelegationHost>(
    host: H,
    execution: PtcExecution,
    revision: RevisionId,
    parent: AgentId,
    slots: Slots,
    budget: DelegationBudget,
) -> bool {
    forall|options: AgentSpawnOptions, answer: Result<AgentStatus, String>| #[trigger]
        host.may_spawn(execution, revision, options, answer) ==> (answer matches Err(error)
            && spawn_refusal(parent, options, slots, budget) == Some(error@))
}

/// A delegation that a worker asks for starts nothing: the host is asked once,
/// nothing is waited for, and the error that the program sees names the call.
pub proof fn law_a_worker_delegates_nothing<H: DelegationHost>(
    host: H,
    execution: PtcExecution,
    revision: RevisionId,
    parent: AgentId,
    slots: Slots,
    budget: DelegationBudget,
    options: AgentSpawnOptions,
    calls: Seq<DelegationCall>,
    r: Result<DelegateResult, String>,
)
    requires
        parent.0 != 0,
        refuses_spawns(host, execution, revision, parent, slots, budget),
        delegated(host, execution, revision, options, calls, r),
    ensures
        calls.len() == 1,
        calls[0] is Spawn,
        r matches Err(error) && named_error("delegate"@, error@)
            == "delegate: unavailable in a delegated worker"@,
{
    law_delegation_is_one_level_deep(
        parent,
        options,
        slots,
        budget,
        false,
        None,
        IsolatedWorkspaceId(0),
        revision,
        arbitrary(),
        arbitrary(),
    );
}

/// A batch that a worker asks for starts nothing: the host is asked once for each
/// request, and nothing is waited for. There is one failed entry for each
/// request, and each names the batch.
pub proof fn law_a_worker_gets_no_batch<H: DelegationHost>(
    host: H,
    execution: PtcExecution,
    revision: RevisionId,
    parent: AgentId,
    slots: Slots,
    budget: DelegationBudget,
    options: Seq<AgentSpawnOptions>,
    calls: Seq<DelegationCall>,
    results: Seq<DelegateResult>,
    shown: Seq<DelegateResult>,
)
    requires
        parent.0 != 0,
        refuses_spawns(host, execution, revision, parent, slots, budget),
        batch_delegated(host, execution, revision, options, calls, results),
        shown.len() == results.len(),
        forall|i: int|
            0 <= i < results.len() ==> shows_entry(
                "delegate_batch"@,
                results[i],
                #[trigger] shown[i],
            ),
    ensures
        calls.len() == options.len(),
        forall|i: int| 0 <= i < calls.len() ==> (#[trigger] calls[i]) is Spawn,
        shown.len() == options.len(),
        forall|i: int|
            0 <= i < shown.len() ==> is_failure(
                #[trigger] shown[i],
                TaskId(0),
                AgentId(0),
                revision,
                "delegate_batch: unavailable in a delegated worker"@,
            ),
{
    let (spawned, joined) = choose|
        spawned: Seq<Result<AgentStatus, String>>,
        joined: Seq<Result<DelegateResult, String>>,
    | #[trigger]
        may_answer(host, execution, revision, options, spawned, joined) && {
            &&& calls == spawn_calls(execution, revision, options, spawned) + join_calls(
                spawned,
                joined,
            )
            &&& results.len() == options.len()
            &&& forall|i: int|
                0 <= i < results.len() ==> reports(
                    spawned[i],
                    joined[i],
                    revision,
                    #[trigger] results[i],
                )
        };
    assert forall|i: int| 0 <= i < spawned.len() implies (#[trigger] spawned[i]) is Err by {
        assert(host.may_spawn(execution, revision, options[i], spawned[i]));
    }
    lemma_nothing_to_join(spawned, joined);
    assert forall|i: int| 0 <= i < shown.len() implies is_failure(
        #[trigger] shown[i],
        TaskId(0),
        AgentId(0),
        revision,
        "delegate_batch: unavailable in a delegated worker"@,
    ) by {
        assert(host.may_spawn(execution, revision, options[i], spawned[i]));
        assert(reports(spawned[i], joined[i], revision, results[i]));
        law_delegation_is_one_level_deep(
            parent,
            options[i],
            slots,
            budget,
            false,
            None,
            IsolatedWorkspaceId(0),
            revision,
            results[i],
            shown[i],
        );
    }
}

proof fn lemma_nothing_to_join(
    spawned: Seq<Result<AgentStatus, String>>,
    joined: Seq<Result<DelegateResult, String>>,
)
    requires
        forall|i: int| 0 <= i < spawned.len() ==> (#[trigger] spawned[i]) is Err,
    ensures
        join_calls(spawned, joined).len() == 0,
    decreases spawned.len(),
{
    if spawned.len() > 0 {
        assert(spawned[spawned.len() - 1] is Err);
        lemma_nothing_to_join(spawned.drop_last(), joined.drop_last());
    }
}

/// The private workspace that a worker needs: none where it only reads; a
/// numbered one else, where the workspace can be forked at all.
pub fn prepare_workspace(access: AgentAccess, can_isolate: bool, slots: &mut Slots) -> (r: Result<
    Option<IsolatedWorkspaceId>,
    String,
>)
    ensures
        final(slots).workers_started == old(slots).workers_started,
        match access {
            AgentAccess::Read => r matches Ok(None) && final(slots).next_workspace == old(
                slots,
            ).next_workspace,
            AgentAccess::IsolatedWrite => if can_isolate {
                r matches Ok(Some(id)) && id.0 == old(slots).next_workspace && final(slots).next_workspace == old(slots).next_workspace.wrapping_add(1)
            } else {
                (r matches Err(m) && m@ == "isolated-write requires a Git-root workspace"@)
                    && final(slots).next_workspace == old(slots).next_workspace
            },
        },
{
    match access {
        AgentAccess::Read => Ok(None),
        AgentAccess::IsolatedWrite => {
            if !can_isolate {
                return Err(text("isolated-write requires a Git-root workspace"));
            }
            Ok(Some(slots.allocate_workspace()))
        },
    }
}

/// The name of an optional profile.
pub open spec fn profile_name(p: Option<AgentProfile>) -> Option<Seq<char>> {
    match p {
        Some(p) => Some(p.name@),
        None => None,
    }
}

/// The context that a worker is given: what its parent supplied, or a marker
/// where that is too large.
pub open spec fn context_given(given: Json, context: Json) -> bool {
    if byte_len(context.compact()) <= MAX_CONTEXT_BYTES {
        given == context
    } else {
        given.text@ == too_large(byte_len(context.compact()))
    }
}

/// The event that records a spawned worker.
pub fn spawned_event(
    parent: &PtcExecution,
    agent: AgentId,
    task_id: TaskId,
    options: &AgentSpawnOptions,
    access: AgentAccess,
    profile: Option<AgentProfile>,
    revision: &RevisionId,
    workspace: Option<IsolatedWorkspaceId>,
) -> (r: SessionEvent)
    ensures
        r matches SessionEvent::AgentSpawned {
            parent_task_id,
            parent_agent,
            agent: a,
            task_id: t,
            objective,
            access: granted,
            profile: named,
            base_revision,
            context,
            isolated_workspace,
        } && parent_task_id == parent.task_id && parent_agent == parent.agent && a == agent && t
            == task_id && objective == options.task && granted == access && opt_view(named)
            == profile_name(profile) && base_revision == *revision && context_given(
            context,
            options.context,
        ) && isolated_workspace == workspace,
{
    let named = match profile {
        Some(p) => Some(text(p.name)),
        None => None,
    };
    SessionEvent::AgentSpawned {
        parent_task_id: parent.task_id,
        parent_agent: parent.agent,
        agent,
        task_id,
        objective: options.task.clone(),
        access,
        profile: named,
        base_revision: revision.clone(),
        context: bounded_context(options.context.clone(), MAX_CONTEXT_BYTES),
        isolated_workspace: workspace,
    }
}

/// The turns of a window that a worker has: those of its profile, else the
/// budget's.
pub fn worker_turns(profile_name: &Option<String>, budget: &DelegationBudget) -> (r: usize)
    ensures
        r == match *profile_name {
            Some(name) => if crate::delegation::known_profile(name@) {
                profile_turns(name@)
            } else {
                budget.max_child_turns as nat
            },
            None => budget.max_child_turns as nat,
        },
{
    match profile_name {
        Some(name) => match profile(name.as_str()) {
            Some(p) => p.max_turns_per_window,
            None => budget.max_child_turns,
        },
        None => budget.max_child_turns,
    }
}

/// What is known of a worker that has stopped.
#[derive(Debug, PartialEq, Eq)]
pub struct WorkerEnd {
    pub agent: AgentId,
    pub task_id: TaskId,
    pub base_revision: RevisionId,
    /// The isolated workspace and the revision it was finalized at.
    pub finalized: Option<(IsolatedWorkspaceId, RevisionId)>,
    /// The revision that the goal of the worker's task records.
    pub recorded_revision: RevisionId,
    pub outcome: Result<TaskOutcome, AgentError>,
    pub evidence: Vec<EvidenceRecord>,
    /// The value of the worker's last run.
    pub findings: Option<Json>,
}

impl WorkerEnd {
    /// The revision that the worker ended at.
    pub open spec fn final_revision(self) -> RevisionId {
        match self.finalized {
            Some((_, revision)) => revision,
            None => self.recorded_revision,
        }
    }

    /// What the worker ended with.
    pub open spec fn summary(self) -> Seq<char> {
        match self.outcome {
            Ok(outcome) => outcome.text(),
            Err(AgentError::Cancelled) => "cancelled"@,
            Err(error) => error.text(),
        }
    }
}

/// What a worker that has stopped returns to its parent.
pub fn worker_result(end: WorkerEnd, max_findings_bytes: usize) -> (r: DelegateResult)
    ensures
        r.task_id == end.task_id,
        r.agent == end.agent,
        r.ok == (end.outcome is Ok),
        r.summary@ == end.summary(),
        r.base_revision == end.base_revision,
        r.final_revision == end.final_revision(),
        r.changed == (end.final_revision().0@ != end.base_revision.0@),
        r.workspace == match end.finalized {
            Some((id, _)) => Some(id),
            None => None,
        },
        r.evidence@ == end.evidence@,
        match end.findings {
            Some(found) => if byte_len(found.compact()) <= max_findings_bytes {
                r.findings == found
            } else {
                r.findings.text@ == too_large(byte_len(found.compact()))
            },
            None => r.findings.text@ == "null"@,
        },
{
    let (ok, summary) = match &end.outcome {
        Ok(outcome) => (true, text(outcome.message())),
        Err(AgentError::Cancelled) => (false, text("cancelled")),
        Err(error) => (false, error.message()),
    };
    let (workspace, final_revision) = match end.finalized {
        Some((id, revision)) => (Some(id), revision),
        None => (None, end.recorded_revision),
    };
    let changed = !final_revision.same(&end.base_revision);
    let findings = match end.findings {
        Some(found) => bounded_context(found, max_findings_bytes),
        None => Json::null(),
    };
    DelegateResult {
        task_id: end.task_id,
        agent: end.agent,
        ok,
        summary,
        base_revision: end.base_revision,
        final_revision,
        changed,
        workspace,
        evidence: end.evidence,
        findings,
    }
}

/// The status that the task of a settled worker is given: none where it has
/// settled already; else one that is terminal, so that nobody sees it as running
/// forever.
pub fn settled_status(status: TaskStatus, ok: bool, cancelled: bool) -> (r: Option<TaskStatus>)
    ensures
        r is Some <==> status.active(),
        r matches Some(s) ==> !s.active() && s == if ok {
            TaskStatus::Completed
        } else if cancelled {
            TaskStatus::Cancelled
        } else {
            TaskStatus::Failed
        },
{
    if !status.is_active() {
        return None;
    }
    if ok {
        Some(TaskStatus::Completed)
    } else if cancelled {
        Some(TaskStatus::Cancelled)
    } else {
        Some(TaskStatus::Failed)
    }
}

/// The event that records a request to cancel a worker.
pub fn cancelled_event(agent: AgentId, record: Option<&AgentRecord>) -> (r: SessionEvent)
    ensures
        r == (SessionEvent::AgentStateChanged {
            agent,
            task_id: match record {
                Some(record) => record.task_id,
                None => TaskId(0),
            },
            state: AgentState::Cancelled,
        }),
{
    let task_id = match record {
        Some(record) => record.task_id,
        None => TaskId(0),
    };
    SessionEvent::AgentStateChanged { agent, task_id, state: AgentState::Cancelled }
}

/// Why a message to a worker is refused, where it is.
pub open spec fn send_refusal(agent: AgentId, record: Option<AgentRecord>) -> Option<Seq<char>> {
    match record {
        None => Some(unknown_agent(agent)),
        Some(record) => if record.state.terminal() {
            Some(
                "agent "@ + decimal(agent.0 as nat) + " already "@ + record.state.name(),
            )
        } else {
            None
        },
    }
}

/// The record of an optional reference.
pub open spec fn held(record: Option<&AgentRecord>) -> Option<AgentRecord> {
    match record {
        Some(r) => Some(*r),
        None => None,
    }
}

/// The event that delivers a message to a worker; one that has settled takes
/// none.
pub fn agent_send(agent: AgentId, record: Option<&AgentRecord>, message: String) -> (r: Result<
    SessionEvent,
    String,
>)
    ensures
        match r {
            Ok(event) => send_refusal(agent, held(record)) is None && event == (
            SessionEvent::AgentMessage {
                agent,
                task_id: (record->0).task_id,
                content: message,
            }),
            Err(m) => send_refusal(agent, held(record)) == Some(m@),
        },
{
    match record {
        None => {
            let mut s = text("unknown agent ");
            s.append(decimal_text(agent.0).as_str());
            Err(s)
        },
        Some(record) => {
            if record.state.is_terminal() {
                let mut s = text("agent ");
                s.append(decimal_text(agent.0).as_str());
                s.append(" already ");
                s.append(record.state.label());
                return Err(s);
            }
            Ok(
                SessionEvent::AgentMessage { agent, task_id: record.task_id, content: message },
            )
        },
    }
}

/// Whether a worker owns an isolated workspace.
pub open spec fn owns(record: AgentRecord, workspace: IsolatedWorkspaceId) -> bool {
    record.isolated_workspace == Some(workspace)
}

/// The first worker that owns an isolated workspace.
pub open spec fn owner_of(agents: Seq<AgentRecord>, workspace: IsolatedWorkspaceId) -> Option<
    AgentRecord,
>
    decreases agents.len(),
{
    if agents.len() == 0 {
        None
    } else if owns(agents[0], workspace) {
        Some(agents[0])
    } else {
        owner_of(agents.skip(1), workspace)
    }
}

/// The first worker that owns an isolated workspace.
pub fn workspace_owner(agents: &Vec<AgentRecord>, workspace: IsolatedWorkspaceId) -> (r: Option<
    &AgentRecord,
>)
    ensures
        held(r) == owner_of(agents@, workspace),
{
    let ghost all = agents@;
    let mut i: usize = 0;
    proof {
        assert(all.skip(0) =~= all);
    }
    while i < agents.len()
        invariant
            i <= agents.len(),
            all == agents@,
            owner_of(all.skip(i as int), workspace) == owner_of(all, workspace),
        decreases agents.len() - i,
    {
        proof {
            assert(all.skip(i as int)[0] == all[i as int]);
            assert(all.skip(i as int).skip(1) =~= all.skip(i + 1));
        }
        match agents[i].isolated_workspace {
            Some(id) => {
                if id.0 == workspace.0 {
                    return Some(&agents[i]);
                }
            },
            None => {},
        }
        i = i + 1;
    }
    None
}

/// The refusal of a workspace whose worker has not settled.
pub open spec fn still_owned(record: AgentRecord, workspace: IsolatedWorkspaceId) -> Seq<char> {
    "agent "@ + decimal(record.agent.0 as nat) + " still owns workspace "@ + decimal(
        workspace.0 as nat,
    ) + "; join or cancel it first"@
}

fn still_owned_text(record: &AgentRecord, workspace: IsolatedWorkspaceId) -> (r: String)
    ensures
        r@ == still_owned(*record, workspace),
{
    let mut s = text("agent ");
    s.append(decimal_text(record.agent.0).as_str());
    s.append(" still owns workspace ");
    s.append(decimal_text(workspace.0).as_str());
    s.append("; join or cancel it first");
    s
}

/// Why a program may not integrate a workspace, where it may not: it is a
/// worker's, the workspace cannot be forked, or the workspace's worker has not
/// settled.
pub open spec fn integrate_refusal(
    parent: AgentId,
    can_isolate: bool,
    owner: Option<AgentRecord>,
    workspace: IsolatedWorkspaceId,
) -> Option<Seq<char>> {
    if parent.0 != 0 {
        Some("integrate: unavailable in a delegated worker"@)
    } else if !can_isolate {
        Some("integration requires a Git-root workspace"@)
    } else if owner is Some && !(owner->0).state.terminal() {
        Some(still_owned(owner->0, workspace))
    } else {
        None
    }
}

/// Whether a response refuses with a message and says nothing else.
pub open spec fn is_refused(r: IntegrationResponse, message: Seq<char>) -> bool {
    &&& !r.ok
    &&& !r.conflict
    &&& r.previous_revision is None
    &&& r.parent_revision is None
    &&& r.child_base is None
    &&& r.parent_current is None
    &&& r.paths@.len() == 0
    &&& opt_view(r.error) == Some(message)
    &&& !r.requires_reverification
}

/// Whether a program may integrate a workspace; where it may not, what it is
/// answered.
pub fn check_integrate(
    parent: AgentId,
    can_isolate: bool,
    owner: Option<&AgentRecord>,
    workspace: IsolatedWorkspaceId,
) -> (r: Option<IntegrationResponse>)
    ensures
        match r {
            None => integrate_refusal(parent, can_isolate, held(owner), workspace) is None,
            Some(response) => integrate_refusal(parent, can_isolate, held(owner), workspace) is Some
                && is_refused(
                response,
                integrate_refusal(parent, can_isolate, held(owner), workspace)->0,
            ),
        },
{
    if !parent.is_root() {
        return Some(
            IntegrationResponse::error(text("integrate: unavailable in a delegated worker")),
        );
    }
    if !can_isolate {
        return Some(
            IntegrationResponse::error(text("integration requires a Git-root workspace")),
        );
    }
    match owner {
        Some(record) => {
            if !record.state.is_terminal() {
                return Some(IntegrationResponse::error(still_owned_text(record, workspace)));
            }
        },
        None => {},
    }
    None
}

/// The agent on whose behalf a workspace is integrated or discarded.
pub open spec fn owning_agent(owner: Option<AgentRecord>) -> AgentId {
    match owner {
        Some(record) => record.agent,
        None => AgentId(0),
    }
}

fn owner_agent(owner: Option<&AgentRecord>) -> (r: AgentId)
    ensures
        r == owning_agent(held(owner)),
{
    match owner {
        Some(record) => record.agent,
        None => AgentId::root(),
    }
}

/// The event that records the start of an integration.
pub fn integration_started(
    parent: &PtcExecution,
    workspace: IsolatedWorkspaceId,
    owner: Option<&AgentRecord>,
    child_base: &RevisionId,
    revision: &RevisionId,
) -> (r: SessionEvent)
    ensures
        r == (SessionEvent::IntegrationStarted {
            task_id: parent.task_id,
            execution_id: parent.execution_id,
            workspace,
            agent: owning_agent(held(owner)),
            child_base: *child_base,
            parent_base: *revision,
        }),
{
    SessionEvent::IntegrationStarted {
        task_id: parent.task_id,
        execution_id: parent.execution_id,
        workspace,
        agent: owner_agent(owner),
        child_base: child_base.clone(),
        parent_base: revision.clone(),
    }
}

/// Whether events record an applied integration.
pub open spec fn records_applied(
    events: Seq<SessionEvent>,
    parent: PtcExecution,
    owner: AgentId,
    before: RevisionId,
    after: RevisionId,
    changed_paths: Seq<String>,
) -> bool {
    &&& events.len() == 2
    &&& events[0] matches SessionEvent::WorkspaceRevisionChanged {
        task_id,
        execution_id,
        from,
        to,
        added,
        modified,
        deleted,
        source,
        isolated_workspace,
    } && task_id == parent.task_id && execution_id == Some(parent.execution_id) && from == before
        && to == after && added@ == changed_paths && modified@.len() == 0 && deleted@.len() == 0
        && source is Tool && isolated_workspace is None
    &&& events[1] matches SessionEvent::IntegrationCompleted {
        task_id,
        execution_id,
        agent,
        parent_revision,
        changed_paths: paths,
    } && task_id == parent.task_id && execution_id == parent.execution_id && agent == owner
        && parent_revision == after && paths@ == changed_paths
}

/// Whether events record a conflict.
pub open spec fn records_conflict(
    events: Seq<SessionEvent>,
    parent: PtcExecution,
    owner: AgentId,
    base: RevisionId,
    current: RevisionId,
    conflicting: Seq<String>,
) -> bool {
    &&& events.len() == 1
    &&& events[0] matches SessionEvent::IntegrationConflict {
        task_id,
        execution_id,
        agent,
        child_base,
        parent_current,
        paths,
    } && task_id == parent.task_id && execution_id == parent.execution_id && agent == owner
        && child_base == base && parent_current == current && paths@ == conflicting
}

/// What an integration is answered, and what is recorded of it. An applied one
/// asks for a new verification: what was verified before was another workspace.
pub fn integrate(
    parent: &PtcExecution,
    owner: Option<&AgentRecord>,
    result: Result<IntegrationResult, String>,
) -> (r: (Vec<SessionEvent>, IntegrationResponse))
    ensures
        match result {
            Ok(
                IntegrationResult::Applied { previous_revision, current_revision, changed_paths },
            ) => {
                &&& records_applied(
                    r.0@,
                    *parent,
                    owning_agent(held(owner)),
                    previous_revision,
                    current_revision,
                    changed_paths@,
                )
                &&& r.1.ok
                &&& !r.1.conflict
                &&& r.1.previous_revision == Some(previous_revision)
                &&& r.1.parent_revision == Some(current_revision)
                &&& r.1.child_base is None
                &&& r.1.parent_current is None
                &&& r.1.paths@ == changed_paths@
                &&& r.1.error is None
                &&& r.1.requires_reverification
            },
            Ok(IntegrationResult::Conflict { child_base, parent_current, paths }) => {
                &&& records_conflict(
                    r.0@,
                    *parent,
                    owning_agent(held(owner)),
                    child_base,
                    parent_current,
                    paths@,
                )
                &&& !r.1.ok
                &&& r.1.conflict
                &&& r.1.previous_revision is None
                &&& r.1.parent_revision is None
                &&& r.1.child_base == Some(child_base)
                &&& r.1.parent_current == Some(parent_current)
                &&& r.1.paths@ == paths@
                &&& r.1.error is None
                &&& !r.1.requires_reverification
            },
            Err(message) => r.0@.len() == 0 && is_refused(r.1, message@),
        },
{
    let agent = owner_agent(owner);
    let mut events: Vec<SessionEvent> = Vec::new();
    match result {
        Ok(IntegrationResult::Applied { previous_revision, current_revision, changed_paths }) => {
            events.push(
                SessionEvent::WorkspaceRevisionChanged {
                    task_id: parent.task_id,
                    execution_id: Some(parent.execution_id),
                    from: previous_revision.clone(),
                    to: current_revision.clone(),
                    added: copy_strings(&changed_paths),
                    modified: Vec::new(),
                    deleted: Vec::new(),
                    source: RevisionSource::Tool,
                    isolated_workspace: None,
                },
            );
            events.push(
                SessionEvent::IntegrationCompleted {
                    task_id: parent.task_id,
                    execution_id: parent.execution_id,
                    agent,
                    parent_revision: current_revision.clone(),
                    changed_paths: copy_strings(&changed_paths),
                },
            );
            let response = IntegrationResponse {
                ok: true,
                conflict: false,
                previous_revision: Some(previous_revision),
                parent_revision: Some(current_revision),
                child_base: None,
                parent_current: None,
                paths: changed_paths,
                error: None,
                requires_reverification: true,
            };
            (events, response)
        },
        Ok(IntegrationResult::Conflict { child_base, parent_current, paths }) => {
            events.push(
                SessionEvent::IntegrationConflict {
                    task_id: parent.task_id,
                    execution_id: parent.execution_id,
                    agent,
                    child_base: child_base.clone(),
                    parent_current: parent_current.clone(),
                    paths: copy_strings(&paths),
                },
            );
            let response = IntegrationResponse {
                ok: false,
                conflict: true,
                previous_revision: None,
                parent_revision: None,
                child_base: Some(child_base),
                parent_current: Some(parent_current),
                paths,
                error: None,
                requires_reverification: false,
            };
            (events, response)
        },
        Err(message) => (events, IntegrationResponse::error(message)),
    }
}

/// Why a program may not discard a workspace, where it may not.
pub open spec fn discard_refusal(
    parent: AgentId,
    can_isolate: bool,
    owner: Option<AgentRecord>,
    workspace: IsolatedWorkspaceId,
) -> Option<Seq<char>> {
    if parent.0 != 0 {
        Some("discard: unavailable in a delegated worker"@)
    } else if owner is Some && !(owner->0).state.terminal() {
        Some(still_owned(owner->0, workspace))
    } else if !can_isolate {
        Some("discard requires a Git-root workspace"@)
    } else {
        None
    }
}

/// Whether a program may discard a workspace. That of a live worker would be
/// pulled out from under it.
pub fn check_discard(
    parent: AgentId,
    can_isolate: bool,
    owner: Option<&AgentRecord>,
    workspace: IsolatedWorkspaceId,
) -> (r: Result<(), String>)
    ensures
        match r {
            Ok(_) => discard_refusal(parent, can_isolate, held(owner), workspace) is None,
            Err(m) => discard_refusal(parent, can_isolate, held(owner), workspace) == Some(m@),
        },
{
    if !parent.is_root() {
        return Err(text("discard: unavailable in a delegated worker"));
    }
    match owner {
        Some(record) => {
            if !record.state.is_terminal() {
                return Err(still_owned_text(record, workspace));
            }
        },
        None => {},
    }
    if !can_isolate {
        return Err(text("discard requires a Git-root workspace"));
    }
    Ok(())
}

/// A workspace whose worker has not settled is neither integrated nor discarded.
pub proof fn law_live_workspaces_are_left_alone(
    parent: AgentId,
    can_isolate: bool,
    owner: AgentRecord,
    workspace: IsolatedWorkspaceId,
)
    requires
        !owner.state.terminal(),
    ensures
        integrate_refusal(parent, can_isolate, Some(owner), workspace) is Some,
        discard_refusal(parent, can_isolate, Some(owner), workspace) is Some,
{
}

/// What a discarded workspace is recorded as and answered with.
pub fn discard(
    parent: &PtcExecution,
    workspace: IsolatedWorkspaceId,
    owner: Option<&AgentRecord>,
    reason: String,
) -> (r: (SessionEvent, Json))
    ensures
        r.0 == (SessionEvent::IntegrationDiscarded {
            task_id: parent.task_id,
            execution_id: parent.execution_id,
            workspace,
            agent: owning_agent(held(owner)),
            reason,
        }),
        r.1.text@ == "{\"ok\":true,\"reason\":"@ + quoted(reason@) + ",\"workspace\":"@ + decimal(
            workspace.0 as nat,
        ) + "}"@,
{
    let mut s = text("{\"ok\":true,\"reason\":");
    s.append(quote(reason.as_str()).as_str());
    s.append(",\"workspace\":");
    s.append(decimal_text(workspace.0).as_str());
    s.append("}");
    let event = SessionEvent::IntegrationDiscarded {
        task_id: parent.task_id,
        execution_id: parent.execution_id,
        workspace,
        agent: owner_agent(owner),
        reason,
    };
    (event, Json { text: s })
}

/// The event that records an update of the goal; one without fields is refused.
pub fn goal_update(parent: &PtcExecution, update: GoalUpdate) -> (r: Result<SessionEvent, String>)
    ensures
        match r {
            Ok(event) => !update.empty() && event == (SessionEvent::GoalUpdated {
                task_id: parent.task_id,
                update,
            }),
            Err(m) => update.empty() && m@ == "goal(update): no recognized fields"@,
        },
{
    if update.is_empty() {
        return Err(text("goal(update): no recognized fields"));
    }
    Ok(SessionEvent::GoalUpdated { task_id: parent.task_id, update })
}

/// What a finish is answered, and, where it is accepted, the summary that the
/// task is completed with. A refusal is a value, so that the program can go on
/// from it.
pub fn finish(view: &TaskView, request: &FinishRequest) -> (r: (FinishVerdict, Option<String>))
    ensures
        objection_views(r.0.objections@) == remaining(*view, request.force),
        objection_views(r.0.waived@) == if request.force {
            view.objections().filter(|o: Objection| o.overridable())
        } else {
            Seq::empty()
        },
        r.0.accepted == (remaining(*view, request.force).len() == 0),
        is_verdict(*view, request.force, r.0),
        r.1 == if r.0.accepted {
            Some(request.summary)
        } else {
            None
        },
{
    let verdict = validate_finish(view, request);
    let completed = if verdict.accepted {
        Some(request.summary.clone())
    } else {
        None
    };
    (verdict, completed)
}

/// The agents whose processes nobody can see any more: those that have settled.
pub open spec fn settled_agents(workers: Seq<WorkerSnapshot>) -> Seq<AgentId>
    decreases workers.len(),
{
    if workers.len() == 0 {
        Seq::empty()
    } else if workers.last().state.terminal() {
        settled_agents(workers.drop_last()).push(workers.last().agent)
    } else {
        settled_agents(workers.drop_last())
    }
}

/// The agents whose processes are killed before a finish is judged. Those of a
/// live worker are left alone.
pub fn reap_settled_workers(workers: &Vec<WorkerSnapshot>) -> (r: Vec<AgentId>)
    ensures
        r@ == settled_agents(workers@),
{
    let ghost all = workers@;
    let mut out: Vec<AgentId> = Vec::new();
    let mut i: usize = 0;
    proof {
        assert(all.take(0) =~= Seq::<WorkerSnapshot>::empty());
    }
    while i < workers.len()
        invariant
            i <= workers.len(),
            all == workers@,
            out@ == settled_agents(all.take(i as int)),
        decreases workers.len() - i,
    {
        proof {
            assert(all.take(i + 1).drop_last() =~= all.take(i as int));
            assert(all.take(i + 1).last() == all[i as int]);
        }
        if workers[i].state.is_terminal() {
            out.push(workers[i].agent);
        }
        i = i + 1;
    }
    proof {
        assert(all.take(i as int) =~= all);
    }
    out
}

/// The event that records a spawned process.
pub fn process_spawned(parent: &PtcExecution, snapshot: &ProcessSnapshot) -> (r: SessionEvent)
    ensures
        r matches SessionEvent::ProcessSpawned { task_id, agent, process, argv, cwd, label, pid }
            && task_id == parent.task_id && agent == parent.agent && process == snapshot.id && argv@
            == snapshot.argv@ && cwd == snapshot.cwd && label == snapshot.label && pid
            == snapshot.pid,
{
    SessionEvent::ProcessSpawned {
        task_id: parent.task_id,
        agent: parent.agent,
        process: snapshot.id,
        argv: copy_strings(&snapshot.argv),
        cwd: snapshot.cwd.clone(),
        label: copy_text(&snapshot.label),
        pid: snapshot.pid,
    }
}

/// The state that the journal records of a process, of the first entry for it.
pub open spec fn recorded_state(records: Seq<ProcessRecord>, id: ProcessId) -> Option<Seq<char>>
    decreases records.len(),
{
    if records.len() == 0 {
        None
    } else if records[0].process == id {
        Some(records[0].state@)
    } else {
        recorded_state(records.skip(1), id)
    }
}

fn find_state(records: &Vec<ProcessRecord>, id: ProcessId) -> (r: Option<String>)
    ensures
        opt_view(r) == recorded_state(records@, id),
{
    let ghost all = records@;
    let mut i: usize = 0;
    proof {
        assert(all.skip(0) =~= all);
    }
    while i < records.len()
        invariant
            i <= records.len(),
            all == records@,
            recorded_state(all.skip(i as int), id) == recorded_state(all, id),
        decreases records.len() - i,
    {
        proof {
            assert(all.skip(i as int)[0] == all[i as int]);
            assert(all.skip(i as int).skip(1) =~= all.skip(i + 1));
        }
        if records[i].process.0 == id.0 {
            return Some(records[i].state.clone());
        }
        i = i + 1;
    }
    None
}

/// The event that records the end of a process: once, when it is first observed
/// in a state that the journal does not record of it.
pub fn record_terminal_process(snapshot: &ProcessSnapshot, records: &Vec<ProcessRecord>) -> (r:
    Option<SessionEvent>)
    ensures
        r is Some <==> !(snapshot.state is Running) && recorded_state(records@, snapshot.id)
            != Some(state_name(snapshot.state)),
        r matches Some(event) ==> records_state(
            event,
            snapshot.owner_task,
            *snapshot,
            snapshot.pid_alive,
        ),
{
    match snapshot.state {
        ProcessState::Running => {
            return None;
        },
        _ => {},
    }
    let label = process_state_label(snapshot.state);
    let known = match find_state(records, snapshot.id) {
        Some(state) => same(state.as_str(), label.as_str()),
        None => false,
    };
    if known {
        None
    } else {
        Some(record_process_state(snapshot.owner_task, snapshot))
    }
}

/// What a write to a process is answered.
pub fn process_written(process: ProcessId) -> (r: Json)
    ensures
        r.text@ == "{\"id\":"@ + decimal(process.0 as nat) + ",\"ok\":true}"@,
{
    let mut s = text("{\"id\":");
    s.append(decimal_text(process.0).as_str());
    s.append(",\"ok\":true}");
    Json { text: s }
}

} // verus!
