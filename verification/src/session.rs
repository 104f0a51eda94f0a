//! The records of the session journal, and what they say of a task.
use vstd::prelude::*;
use crate::delegation::{AgentAccess, AgentState, DelegateResult};
use crate::goal::{all_kept, blocking_of, copy_kept, copy_work, law_checkpoint_shows_what_is_recorded, lines_of, Kept, Line, AgentSummary, ProcessSummary, VerificationSummary, titles, titles_of, waived_of, AcceptanceCriterion, ContextCheckpoint, FinishObjection, FinishRequest, FinishVerdict, GoalState, GoalUpdate, TaskStatus};
use crate::identity::{copy_prelude, copy_revision, copy_text, same_prelude, same_prelude_spec, AgentId, ExecutionId, IsolatedWorkspaceId, PreludeId, ProcessId, ResultId, RevisionId, TaskId};
use crate::json::Json;
use crate::laws::completion::is_verdict;
use crate::text::{contains, copy_strings, same, text, views};

verus! {

/// One recorded verification.
#[derive(Debug, PartialEq, Eq)]
pub struct EvidenceRecord {
    pub kind: String,
    pub ok: bool,
    pub revision: RevisionId,
    pub result_ids: Vec<ResultId>,
    pub note: Option<String>,
    pub timestamp_ms: u64,
    pub task_id: TaskId,
    pub execution_id: ExecutionId,
    pub prelude: Option<PreludeId>,
}

/// Whether two records say the same.
pub open spec fn same_evidence(a: EvidenceRecord, b: EvidenceRecord) -> bool {
    &&& a.kind == b.kind
    &&& a.ok == b.ok
    &&& a.revision == b.revision
    &&& a.result_ids@ == b.result_ids@
    &&& a.note == b.note
    &&& a.timestamp_ms == b.timestamp_ms
    &&& a.task_id == b.task_id
    &&& a.execution_id == b.execution_id
    &&& a.prelude == b.prelude
}

/// A copy of result numbers.
pub fn copy_results(ids: &Vec<ResultId>) -> (r: Vec<ResultId>)
    ensures
        r@ == ids@,
{
    let mut out: Vec<ResultId> = Vec::new();
    let mut i: usize = 0;
    while i < ids.len()
        invariant
            i <= ids.len(),
            out@ == ids@.take(i as int),
        decreases ids.len() - i,
    {
        out.push(ids[i]);
        proof {
            assert(ids@.take(i + 1) =~= ids@.take(i as int).push(ids@[i as int]));
        }
        i = i + 1;
    }
    proof {
        assert(ids@.take(i as int) =~= ids@);
    }
    out
}

impl Clone for EvidenceRecord {
    fn clone(&self) -> (r: Self)
        ensures
            same_evidence(r, *self),
    {
        EvidenceRecord {
            kind: self.kind.clone(),
            ok: self.ok,
            revision: self.revision.clone(),
            result_ids: copy_results(&self.result_ids),
            note: copy_text(&self.note),
            timestamp_ms: self.timestamp_ms,
            task_id: self.task_id,
            execution_id: self.execution_id,
            prelude: copy_prelude(&self.prelude),
        }
    }
}

/// Whether two lists of records say the same, in the same order.
pub open spec fn same_evidence_list(a: Seq<EvidenceRecord>, b: Seq<EvidenceRecord>) -> bool {
    &&& a.len() == b.len()
    &&& forall|i: int| 0 <= i < a.len() ==> same_evidence(#[trigger] a[i], b[i])
}

/// A copy of records.
pub fn copy_evidence(records: &Vec<EvidenceRecord>) -> (r: Vec<EvidenceRecord>)
    ensures
        same_evidence_list(r@, records@),
{
    let mut out: Vec<EvidenceRecord> = Vec::new();
    let mut i: usize = 0;
    while i < records.len()
        invariant
            i <= records.len(),
            out@.len() == i,
            forall|j: int| 0 <= j < i ==> same_evidence(#[trigger] out@[j], records@[j]),
        decreases records.len() - i,
    {
        out.push(records[i].clone());
        i = i + 1;
    }
    out
}

/// A delegated worker as the journal records it.
#[derive(Clone, Debug, PartialEq, Eq)]
pub struct AgentRecord {
    pub agent: AgentId,
    pub task_id: TaskId,
    pub objective: String,
    pub access: AgentAccess,
    pub profile: Option<String>,
    pub state: AgentState,
    pub context: Json,
    pub result: Option<DelegateResult>,
    /// Messages of the parent that the worker has not taken up yet.
    pub inbox: Vec<String>,
    pub isolated_workspace: Option<IsolatedWorkspaceId>,
}

/// A background process as the journal records it.
#[derive(Clone, Debug, PartialEq, Eq)]
pub struct ProcessRecord {
    pub process: ProcessId,
    pub state: String,
    pub argv: Vec<String>,
    pub exit_code: Option<i64>,
}

/// What changed the workspace.
#[derive(Clone, Copy, Debug, PartialEq, Eq, Structural)]
pub enum RevisionSource {
    Tool,
    Process,
    Restore,
}

/// One event of the journal.
#[derive(Clone, Debug, PartialEq, Eq)]
pub enum SessionEvent {
    UserMessage { task_id: TaskId, content: String },
    AssistantMessage { task_id: TaskId, content: String },
    SteeringQueued { task_id: TaskId, content: String },
    SteeringApplied { task_id: TaskId, content: String },
    ModelStarted { task_id: TaskId },
    ModelSuperseded { task_id: TaskId },
    ModelCompleted { task_id: TaskId, output_kind: String },
    PtcStarted {
        task_id: TaskId,
        execution_id: ExecutionId,
        source: String,
        start_revision: RevisionId,
    },
    PtcCompleted { task_id: TaskId, execution_id: ExecutionId, value: Json },
    PtcFailed { task_id: TaskId, execution_id: ExecutionId, error: String, value: Json },
    RepeatedActionDetected { task_id: TaskId, fingerprint: String },
    GoalUpdated { task_id: TaskId, update: GoalUpdate },
    FinishProposed { task_id: TaskId, request: FinishRequest, verdict: FinishVerdict },
    TaskCompleted { task_id: TaskId, summary: String },
    TaskCancelRequested { task_id: TaskId },
    StatusChanged { task_id: TaskId, status: TaskStatus, reason: Option<String> },
    ContextWindowStarted { task_id: TaskId, agent: AgentId, window: u32 },
    Compacted {
        task_id: TaskId,
        agent: AgentId,
        window: u32,
        summary: String,
        checkpoint: Option<ContextCheckpoint>,
    },
    EvidenceRecorded { evidence: EvidenceRecord },
    PreludeLoaded { path: String, prelude: PreludeId, described: bool },
    AgentSpawned {
        parent_task_id: TaskId,
        parent_agent: AgentId,
        agent: AgentId,
        task_id: TaskId,
        objective: String,
        access: AgentAccess,
        profile: Option<String>,
        base_revision: RevisionId,
        context: Json,
        isolated_workspace: Option<IsolatedWorkspaceId>,
    },
    AgentStateChanged { agent: AgentId, task_id: TaskId, state: AgentState },
    AgentMessage { agent: AgentId, task_id: TaskId, content: String },
    AgentMessageApplied { agent: AgentId, task_id: TaskId, content: String },
    AgentCompleted { agent: AgentId, task_id: TaskId, result: DelegateResult },
    ProcessSpawned {
        task_id: TaskId,
        agent: AgentId,
        process: ProcessId,
        argv: Vec<String>,
        cwd: String,
        label: Option<String>,
        pid: Option<u32>,
    },
    ProcessStateChanged {
        task_id: TaskId,
        process: ProcessId,
        state: String,
        exit_code: Option<i64>,
        pid_alive: Option<bool>,
    },
    WorkspaceRevisionChanged {
        task_id: TaskId,
        execution_id: Option<ExecutionId>,
        from: RevisionId,
        to: RevisionId,
        added: Vec<String>,
        modified: Vec<String>,
        deleted: Vec<String>,
        source: RevisionSource,
        isolated_workspace: Option<IsolatedWorkspaceId>,
    },
    IntegrationStarted {
        task_id: TaskId,
        execution_id: ExecutionId,
        workspace: IsolatedWorkspaceId,
        agent: AgentId,
        child_base: RevisionId,
        parent_base: RevisionId,
    },
    IntegrationCompleted {
        task_id: TaskId,
        execution_id: ExecutionId,
        agent: AgentId,
        parent_revision: RevisionId,
        changed_paths: Vec<String>,
    },
    IntegrationConflict {
        task_id: TaskId,
        execution_id: ExecutionId,
        agent: AgentId,
        child_base: RevisionId,
        parent_current: RevisionId,
        paths: Vec<String>,
    },
    IntegrationDiscarded {
        task_id: TaskId,
        execution_id: ExecutionId,
        workspace: IsolatedWorkspaceId,
        agent: AgentId,
        reason: String,
    },
}

impl SessionEvent {
    /// The task that the event belongs to; a loaded prelude belongs to none.
    pub open spec fn owner(self) -> Option<TaskId> {
        match self {
            SessionEvent::UserMessage { task_id, .. } => Some(task_id),
            SessionEvent::AssistantMessage { task_id, .. } => Some(task_id),
            SessionEvent::SteeringQueued { task_id, .. } => Some(task_id),
            SessionEvent::SteeringApplied { task_id, .. } => Some(task_id),
            SessionEvent::ModelStarted { task_id } => Some(task_id),
            SessionEvent::ModelSuperseded { task_id } => Some(task_id),
            SessionEvent::ModelCompleted { task_id, .. } => Some(task_id),
            SessionEvent::PtcStarted { task_id, .. } => Some(task_id),
            SessionEvent::PtcCompleted { task_id, .. } => Some(task_id),
            SessionEvent::PtcFailed { task_id, .. } => Some(task_id),
            SessionEvent::RepeatedActionDetected { task_id, .. } => Some(task_id),
            SessionEvent::GoalUpdated { task_id, .. } => Some(task_id),
            SessionEvent::FinishProposed { task_id, .. } => Some(task_id),
            SessionEvent::TaskCompleted { task_id, .. } => Some(task_id),
            SessionEvent::TaskCancelRequested { task_id } => Some(task_id),
            SessionEvent::StatusChanged { task_id, .. } => Some(task_id),
            SessionEvent::ContextWindowStarted { task_id, .. } => Some(task_id),
            SessionEvent::Compacted { task_id, .. } => Some(task_id),
            SessionEvent::EvidenceRecorded { evidence } => Some(evidence.task_id),
            SessionEvent::PreludeLoaded { .. } => None,
            SessionEvent::AgentSpawned { task_id, .. } => Some(task_id),
            SessionEvent::AgentStateChanged { task_id, .. } => Some(task_id),
            SessionEvent::AgentMessage { task_id, .. } => Some(task_id),
            SessionEvent::AgentMessageApplied { task_id, .. } => Some(task_id),
            SessionEvent::AgentCompleted { task_id, .. } => Some(task_id),
            SessionEvent::ProcessSpawned { task_id, .. } => Some(task_id),
            SessionEvent::ProcessStateChanged { task_id, .. } => Some(task_id),
            SessionEvent::WorkspaceRevisionChanged { task_id, .. } => Some(task_id),
            SessionEvent::IntegrationStarted { task_id, .. } => Some(task_id),
            SessionEvent::IntegrationCompleted { task_id, .. } => Some(task_id),
            SessionEvent::IntegrationConflict { task_id, .. } => Some(task_id),
            SessionEvent::IntegrationDiscarded { task_id, .. } => Some(task_id),
        }
    }

    /// The task that the event belongs to.
    pub fn task_id(&self) -> (r: Option<TaskId>)
        ensures
            r == self.owner(),
    {
        match self {
            SessionEvent::UserMessage { task_id, .. } => Some(*task_id),
            SessionEvent::AssistantMessage { task_id, .. } => Some(*task_id),
            SessionEvent::SteeringQueued { task_id, .. } => Some(*task_id),
            SessionEvent::SteeringApplied { task_id, .. } => Some(*task_id),
            SessionEvent::ModelStarted { task_id } => Some(*task_id),
            SessionEvent::ModelSuperseded { task_id } => Some(*task_id),
            SessionEvent::ModelCompleted { task_id, .. } => Some(*task_id),
            SessionEvent::PtcStarted { task_id, .. } => Some(*task_id),
            SessionEvent::PtcCompleted { task_id, .. } => Some(*task_id),
            SessionEvent::PtcFailed { task_id, .. } => Some(*task_id),
            SessionEvent::RepeatedActionDetected { task_id, .. } => Some(*task_id),
            SessionEvent::GoalUpdated { task_id, .. } => Some(*task_id),
            SessionEvent::FinishProposed { task_id, .. } => Some(*task_id),
            SessionEvent::TaskCompleted { task_id, .. } => Some(*task_id),
            SessionEvent::TaskCancelRequested { task_id } => Some(*task_id),
            SessionEvent::StatusChanged { task_id, .. } => Some(*task_id),
            SessionEvent::ContextWindowStarted { task_id, .. } => Some(*task_id),
            SessionEvent::Compacted { task_id, .. } => Some(*task_id),
            SessionEvent::EvidenceRecorded { evidence } => Some(evidence.task_id),
            SessionEvent::PreludeLoaded { .. } => None,
            SessionEvent::AgentSpawned { task_id, .. } => Some(*task_id),
            SessionEvent::AgentStateChanged { task_id, .. } => Some(*task_id),
            SessionEvent::AgentMessage { task_id, .. } => Some(*task_id),
            SessionEvent::AgentMessageApplied { task_id, .. } => Some(*task_id),
            SessionEvent::AgentCompleted { task_id, .. } => Some(*task_id),
            SessionEvent::ProcessSpawned { task_id, .. } => Some(*task_id),
            SessionEvent::ProcessStateChanged { task_id, .. } => Some(*task_id),
            SessionEvent::WorkspaceRevisionChanged { task_id, .. } => Some(*task_id),
            SessionEvent::IntegrationStarted { task_id, .. } => Some(*task_id),
            SessionEvent::IntegrationCompleted { task_id, .. } => Some(*task_id),
            SessionEvent::IntegrationConflict { task_id, .. } => Some(*task_id),
            SessionEvent::IntegrationDiscarded { task_id, .. } => Some(*task_id),
        }
    }
}

/// An event with its place in the journal.
#[derive(Clone, Debug, PartialEq, Eq)]
pub struct EventRecord {
    pub seq: u64,
    pub event: SessionEvent,
}

/// Why a request to the session was refused.
#[derive(Clone, Debug, PartialEq, Eq)]
pub enum SessionError {
    State(String),
    /// Another runner owns the workspace.
    Busy(String),
    /// The workspace has no session yet.
    NoSession(String),
}

impl SessionError {
    /// What was refused.
    pub open spec fn text(self) -> Seq<char> {
        match self {
            SessionError::State(message) => message@,
            SessionError::Busy(message) => message@,
            SessionError::NoSession(message) => message@,
        }
    }

    /// What was refused.
    pub fn message(&self) -> (r: String)
        ensures
            r@ == self.text(),
    {
        match self {
            SessionError::State(message) => message.clone(),
            SessionError::Busy(message) => message.clone(),
            SessionError::NoSession(message) => message.clone(),
        }
    }
}

/// What the journal says of one task.
#[derive(Clone, Debug, PartialEq, Eq)]
pub struct TaskView {
    pub task_id: TaskId,
    pub agent: AgentId,
    pub goal: GoalState,
    pub window: u32,
    pub turns_in_window: usize,
    /// The first event of the current context window.
    pub window_start_seq: u64,
    pub checkpoint: Option<ContextCheckpoint>,
    pub latest_user_message: Option<String>,
    pub changed_paths: Vec<String>,
    pub evidence: Vec<EvidenceRecord>,
    pub agents: Vec<AgentRecord>,
    pub processes: Vec<ProcessRecord>,
    pub prelude: Option<PreludeId>,
    pub base_revision: Option<RevisionId>,
    pub pending_steering: Vec<String>,
    pub cancel_requested: bool,
    /// Programs admitted by a lost runner without a durable outcome.
    pub outcome_unknown_executions: Vec<ExecutionId>,
    /// Isolated workspaces whose delta was neither integrated nor discarded.
    pub unintegrated_workspaces: Vec<u64>,
    /// Paths of an integration conflict that was not resolved since.
    pub open_conflict_paths: Vec<String>,
    /// Isolated workspaces that a lost runner left behind.
    pub unresolved_recovery_workspaces: Vec<u64>,
}

/// Whether no later record is of the same kind.
pub open spec fn is_newest(records: Seq<EvidenceRecord>, i: int) -> bool {
    forall|j: int| i < j < records.len() ==> (#[trigger] records[j]).kind@ != records[i].kind@
}

/// The positions, from `i` on, of the newest record of each kind.
pub open spec fn newest_from(records: Seq<EvidenceRecord>, i: int) -> Seq<int>
    decreases records.len() - i,
{
    if i < 0 || i >= records.len() {
        Seq::empty()
    } else if is_newest(records, i) {
        seq![i] + newest_from(records, i + 1)
    } else {
        newest_from(records, i + 1)
    }
}

/// Sizes as integers.
pub open spec fn positions(indexes: Seq<usize>) -> Seq<int> {
    indexes.map_values(|i: usize| i as int)
}

impl TaskView {
    /// Whether a verification describes the present workspace and tool
    /// environment: both the revision and the prelude still match.
    pub open spec fn fresh(self, record: EvidenceRecord) -> bool {
        record.revision.0@ == self.goal.current_revision.0@ && same_prelude_spec(
            record.prelude,
            self.prelude,
        )
    }

    /// The positions of the newest record of each kind, in journal order.
    pub fn latest_evidence(&self) -> (r: Vec<usize>)
        ensures
            positions(r@) == newest_from(self.evidence@, 0),
            forall|k: int| 0 <= k < r.len() ==> (#[trigger] r@[k]) < self.evidence@.len(),
    {
        let mut out: Vec<usize> = Vec::new();
        let mut i: usize = 0;
        let ghost records = self.evidence@;
        proof {
            assert(positions(out@) + newest_from(records, 0) =~= newest_from(records, 0));
        }
        while i < self.evidence.len()
            invariant
                i <= self.evidence.len(),
                records == self.evidence@,
                positions(out@) + newest_from(records, i as int) == newest_from(records, 0),
                forall|k: int| 0 <= k < out.len() ==> (#[trigger] out@[k]) < records.len(),
            decreases self.evidence.len() - i,
        {
            let mut newest = true;
            let mut j: usize = i + 1;
            while j < self.evidence.len()
                invariant
                    i < j <= self.evidence.len(),
                    records == self.evidence@,
                    newest == (forall|m: int|
                        i < m < j ==> (#[trigger] records[m]).kind@ != records[i as int].kind@),
                decreases self.evidence.len() - j,
            {
                if same(self.evidence[j].kind.as_str(), self.evidence[i].kind.as_str()) {
                    newest = false;
                }
                j = j + 1;
            }
            proof {
                assert(newest == is_newest(records, i as int));
            }
            if newest {
                let ghost before = out@;
                out.push(i);
                proof {
                    assert(positions(out@) =~= positions(before).push(i as int));
                    assert(positions(out@) + newest_from(records, i + 1) =~= positions(before) + (
                    seq![i as int] + newest_from(records, i + 1)));
                }
            }
            i = i + 1;
        }
        proof {
            assert(positions(out@) + newest_from(records, i as int) =~= positions(out@));
        }
        out
    }

    /// Whether a verification describes the present workspace and tool
    /// environment.
    pub fn evidence_is_fresh(&self, record: &EvidenceRecord) -> (r: bool)
        ensures
            r == self.fresh(*record),
    {
        record.revision.same(&self.goal.current_revision) && same_prelude(
            &record.prelude,
            &self.prelude,
        )
    }

    /// The status of the task.
    pub fn status(&self) -> (r: TaskStatus)
        ensures
            r == self.goal.status,
    {
        self.goal.status
    }
}

/// An objection as the plain values it reports.
pub enum Objection {
    UnresolvedAgents(Seq<AgentId>),
    RunningProcesses(Seq<ProcessId>),
    OutcomeUnknownExecutions(Seq<ExecutionId>),
    FailedVerification(Seq<Seq<char>>),
    UnintegratedWorkspaces(Seq<u64>),
    OpenConflict(Seq<Seq<char>>),
    StaleVerification(Seq<char>, Option<Seq<char>>),
    PendingWork(Seq<Seq<char>>),
    UnmetCriteria(Seq<Seq<char>>),
}

impl View for FinishObjection {
    type V = Objection;

    open spec fn view(&self) -> Objection {
        match *self {
            FinishObjection::UnresolvedAgents { agents } => Objection::UnresolvedAgents(agents@),
            FinishObjection::RunningProcesses { processes } => Objection::RunningProcesses(
                processes@,
            ),
            FinishObjection::OutcomeUnknownExecutions { executions } =>
            Objection::OutcomeUnknownExecutions(executions@),
            FinishObjection::FailedVerification { kinds } => Objection::FailedVerification(
                views(kinds@),
            ),
            FinishObjection::StaleVerification { current, verified } =>
            Objection::StaleVerification(
                current.0@,
                match verified {
                    Some(revision) => Some(revision.0@),
                    None => None,
                },
            ),
            FinishObjection::PendingWork { items } => Objection::PendingWork(views(items@)),
            FinishObjection::UnmetCriteria { criteria } => Objection::UnmetCriteria(
                views(criteria@),
            ),
            FinishObjection::UnintegratedWorkspaces { workspaces } =>
            Objection::UnintegratedWorkspaces(workspaces@),
            FinishObjection::OpenConflict { paths } => Objection::OpenConflict(views(paths@)),
        }
    }
}

impl Objection {
    /// Whether force may override the objection.
    pub open spec fn overridable(self) -> bool {
        self is PendingWork || self is UnmetCriteria
    }
}

/// The objections of a list as plain values.
pub open spec fn objection_views(objections: Seq<FinishObjection>) -> Seq<Objection> {
    objections.map_values(|o: FinishObjection| o@)
}

/// One objection where the condition holds, else none.
pub open spec fn raised(condition: bool, objection: Objection) -> Seq<Objection> {
    if condition {
        seq![objection]
    } else {
        Seq::empty()
    }
}

/// The workers that have not settled.
pub open spec fn unresolved_agents(agents: Seq<AgentRecord>) -> Seq<AgentId> {
    agents.filter(|a: AgentRecord| !a.state.terminal()).map_values(|a: AgentRecord| a.agent)
}

/// The processes that still run.
pub open spec fn running_processes(processes: Seq<ProcessRecord>) -> Seq<ProcessId> {
    processes.filter(|p: ProcessRecord| p.state@ == "running"@).map_values(
        |p: ProcessRecord| p.process,
    )
}

/// The kinds whose newest verification failed.
pub open spec fn failed_kinds(records: Seq<EvidenceRecord>) -> Seq<Seq<char>> {
    newest_from(records, 0).filter(|i: int| !records[i].ok).map_values(|i: int| records[i].kind@)
}

/// The criteria that are not met.
pub open spec fn unmet_criteria(criteria: Seq<AcceptanceCriterion>) -> Seq<Seq<char>> {
    criteria.filter(|c: AcceptanceCriterion| !c.met).map_values(
        |c: AcceptanceCriterion| c.description@,
    )
}

impl TaskView {
    /// Whether the workspace changed and no passing verification describes it.
    pub open spec fn verification_is_stale(self) -> bool {
        self.changed_paths@.len() > 0 && !self.goal.verified_now()
    }

    /// Everything that stands against completing the task.
    pub open spec fn objections(self) -> Seq<Objection> {
        raised(
            unresolved_agents(self.agents@).len() > 0,
            Objection::UnresolvedAgents(unresolved_agents(self.agents@)),
        ) + raised(
            running_processes(self.processes@).len() > 0,
            Objection::RunningProcesses(running_processes(self.processes@)),
        ) + raised(
            self.outcome_unknown_executions@.len() > 0,
            Objection::OutcomeUnknownExecutions(self.outcome_unknown_executions@),
        ) + raised(
            failed_kinds(self.evidence@).len() > 0,
            Objection::FailedVerification(failed_kinds(self.evidence@)),
        ) + raised(
            self.unintegrated_workspaces@.len() > 0,
            Objection::UnintegratedWorkspaces(self.unintegrated_workspaces@),
        ) + raised(
            self.open_conflict_paths@.len() > 0,
            Objection::OpenConflict(views(self.open_conflict_paths@)),
        ) + raised(
            self.verification_is_stale(),
            Objection::StaleVerification(
                self.goal.current_revision.0@,
                match self.goal.last_verified_revision {
                    Some(revision) => Some(revision.0@),
                    None => None,
                },
            ),
        ) + raised(
            self.goal.pending_work@.len() > 0,
            Objection::PendingWork(titles_of(self.goal.pending_work@)),
        ) + raised(
            unmet_criteria(self.goal.acceptance_criteria@).len() > 0,
            Objection::UnmetCriteria(unmet_criteria(self.goal.acceptance_criteria@)),
        )
    }
}

fn collect_unresolved(agents: &Vec<AgentRecord>) -> (r: Vec<AgentId>)
    ensures
        r@ == unresolved_agents(agents@),
{
    let mut out: Vec<AgentId> = Vec::new();
    let mut i: usize = 0;
    let ghost pred = |a: AgentRecord| !a.state.terminal();
    let ghost pick = |a: AgentRecord| a.agent;
    proof {
        reveal_with_fuel(Seq::filter, 1);
        assert(out@ =~= unresolved_agents(agents@.take(0)));
    }
    while i < agents.len()
        invariant
            i <= agents.len(),
            pred == (|a: AgentRecord| !a.state.terminal()),
            pick == (|a: AgentRecord| a.agent),
            out@ == unresolved_agents(agents@.take(i as int)),
        decreases agents.len() - i,
    {
        let ghost done = agents@.take(i as int);
        proof {
            assert(agents@.take(i + 1) =~= done.push(agents@[i as int]));
            done.lemma_filter_push(agents@[i as int], pred);
            done.filter(pred).lemma_push_map_commute(pick, agents@[i as int]);
        }
        if !agents[i].state.is_terminal() {
            out.push(agents[i].agent);
        }
        i = i + 1;
    }
    proof {
        assert(agents@.take(i as int) =~= agents@);
    }
    out
}

fn collect_running(processes: &Vec<ProcessRecord>) -> (r: Vec<ProcessId>)
    ensures
        r@ == running_processes(processes@),
{
    let mut out: Vec<ProcessId> = Vec::new();
    let mut i: usize = 0;
    let ghost pred = |p: ProcessRecord| p.state@ == "running"@;
    let ghost pick = |p: ProcessRecord| p.process;
    proof {
        reveal_with_fuel(Seq::filter, 1);
        assert(out@ =~= running_processes(processes@.take(0)));
    }
    while i < processes.len()
        invariant
            i <= processes.len(),
            pred == (|p: ProcessRecord| p.state@ == "running"@),
            pick == (|p: ProcessRecord| p.process),
            out@ == running_processes(processes@.take(i as int)),
        decreases processes.len() - i,
    {
        let ghost done = processes@.take(i as int);
        proof {
            assert(processes@.take(i + 1) =~= done.push(processes@[i as int]));
            done.lemma_filter_push(processes@[i as int], pred);
            done.filter(pred).lemma_push_map_commute(pick, processes@[i as int]);
        }
        if same(processes[i].state.as_str(), "running") {
            out.push(processes[i].process);
        }
        i = i + 1;
    }
    proof {
        assert(processes@.take(i as int) =~= processes@);
    }
    out
}

fn collect_failed(view: &TaskView) -> (r: Vec<String>)
    ensures
        views(r@) == failed_kinds(view.evidence@),
{
    let newest = view.latest_evidence();
    let mut out: Vec<String> = Vec::new();
    let mut i: usize = 0;
    let ghost records = view.evidence@;
    let ghost all = newest_from(records, 0);
    let ghost pred = |k: int| !records[k].ok;
    let ghost pick = |k: int| records[k].kind@;
    proof {
        reveal_with_fuel(Seq::filter, 1);
        assert(views(out@) =~= all.take(0).filter(pred).map_values(pick));
    }
    while i < newest.len()
        invariant
            i <= newest.len(),
            records == view.evidence@,
            positions(newest@) == all,
            forall|k: int| 0 <= k < newest.len() ==> (#[trigger] newest@[k]) < records.len(),
            pred == (|k: int| !records[k].ok),
            pick == (|k: int| records[k].kind@),
            views(out@) == all.take(i as int).filter(pred).map_values(pick),
        decreases newest.len() - i,
    {
        let ghost done = all.take(i as int);
        let k: usize = newest[i];
        proof {
            assert(all[i as int] == k as int);
            assert(all.take(i + 1) =~= done.push(k as int));
            done.lemma_filter_push(k as int, pred);
            done.filter(pred).lemma_push_map_commute(pick, k as int);
        }
        if !view.evidence[k].ok {
            let ghost before = out@;
            out.push(view.evidence[k].kind.clone());
            proof {
                assert(views(out@) =~= views(before).push(records[k as int].kind@));
            }
        }
        i = i + 1;
    }
    proof {
        assert(all.take(i as int) =~= all);
    }
    out
}

fn collect_unmet(criteria: &Vec<AcceptanceCriterion>) -> (r: Vec<String>)
    ensures
        views(r@) == unmet_criteria(criteria@),
{
    let mut out: Vec<String> = Vec::new();
    let mut i: usize = 0;
    let ghost pred = |c: AcceptanceCriterion| !c.met;
    let ghost pick = |c: AcceptanceCriterion| c.description@;
    proof {
        reveal_with_fuel(Seq::filter, 1);
        assert(views(out@) =~= unmet_criteria(criteria@.take(0)));
    }
    while i < criteria.len()
        invariant
            i <= criteria.len(),
            pred == (|c: AcceptanceCriterion| !c.met),
            pick == (|c: AcceptanceCriterion| c.description@),
            views(out@) == unmet_criteria(criteria@.take(i as int)),
        decreases criteria.len() - i,
    {
        let ghost done = criteria@.take(i as int);
        proof {
            assert(criteria@.take(i + 1) =~= done.push(criteria@[i as int]));
            done.lemma_filter_push(criteria@[i as int], pred);
            done.filter(pred).lemma_push_map_commute(pick, criteria@[i as int]);
        }
        if !criteria[i].met {
            let ghost before = out@;
            out.push(criteria[i].description.clone());
            proof {
                assert(views(out@) =~= views(before).push(criteria@[i as int].description@));
            }
        }
        i = i + 1;
    }
    proof {
        assert(criteria@.take(i as int) =~= criteria@);
    }
    out
}

/// Appends an objection where its condition holds.
fn raise(out: &mut Vec<FinishObjection>, condition: bool, objection: FinishObjection)
    ensures
        objection_views(final(out)@) == objection_views(old(out)@) + raised(condition, objection@),
{
    let ghost before = out@;
    if condition {
        out.push(objection);
        proof {
            assert(objection_views(out@) =~= objection_views(before) + seq![objection@]);
        }
    } else {
        proof {
            assert(objection_views(before) + raised(condition, objection@) =~= objection_views(
                before,
            ));
        }
    }
}

/// A copy of a list of execution numbers.
fn copy_executions(ids: &Vec<ExecutionId>) -> (r: Vec<ExecutionId>)
    ensures
        r@ == ids@,
{
    let mut out: Vec<ExecutionId> = Vec::new();
    let mut i: usize = 0;
    while i < ids.len()
        invariant
            i <= ids.len(),
            out@ == ids@.take(i as int),
        decreases ids.len() - i,
    {
        out.push(ids[i]);
        proof {
            assert(ids@.take(i + 1) =~= ids@.take(i as int).push(ids@[i as int]));
        }
        i = i + 1;
    }
    proof {
        assert(ids@.take(i as int) =~= ids@);
    }
    out
}

/// A copy of a list of numbers.
fn copy_numbers(ids: &Vec<u64>) -> (r: Vec<u64>)
    ensures
        r@ == ids@,
{
    let mut out: Vec<u64> = Vec::new();
    let mut i: usize = 0;
    while i < ids.len()
        invariant
            i <= ids.len(),
            out@ == ids@.take(i as int),
        decreases ids.len() - i,
    {
        out.push(ids[i]);
        proof {
            assert(ids@.take(i + 1) =~= ids@.take(i as int).push(ids@[i as int]));
        }
        i = i + 1;
    }
    proof {
        assert(ids@.take(i as int) =~= ids@);
    }
    out
}

/// Everything that stands against completing the task.
pub fn finish_objections(view: &TaskView) -> (r: Vec<FinishObjection>)
    ensures
        objection_views(r@) == view.objections(),
{
    let mut out: Vec<FinishObjection> = Vec::new();
    proof {
        assert(objection_views(out@) =~= Seq::<Objection>::empty());
    }
    let agents = collect_unresolved(&view.agents);
    let any_agents = !agents.is_empty();
    if any_agents {
        out.push(FinishObjection::UnresolvedAgents { agents });
    }
    proof {
        assert(objection_views(out@) =~= raised(
            unresolved_agents(view.agents@).len() > 0,
            Objection::UnresolvedAgents(unresolved_agents(view.agents@)),
        ));
    }
    let processes = collect_running(&view.processes);
    raise(&mut out, !processes.is_empty(), FinishObjection::RunningProcesses { processes });
    raise(
        &mut out,
        !view.outcome_unknown_executions.is_empty(),
        FinishObjection::OutcomeUnknownExecutions {
            executions: copy_executions(&view.outcome_unknown_executions),
        },
    );
    let kinds = collect_failed(view);
    proof {
        assert(views(kinds@).len() == kinds@.len());
    }
    raise(&mut out, !kinds.is_empty(), FinishObjection::FailedVerification { kinds });
    raise(
        &mut out,
        !view.unintegrated_workspaces.is_empty(),
        FinishObjection::UnintegratedWorkspaces {
            workspaces: copy_numbers(&view.unintegrated_workspaces),
        },
    );
    raise(
        &mut out,
        !view.open_conflict_paths.is_empty(),
        FinishObjection::OpenConflict { paths: copy_strings(&view.open_conflict_paths) },
    );
    raise(
        &mut out,
        !view.changed_paths.is_empty() && !view.goal.verification_is_current(),
        FinishObjection::StaleVerification {
            current: view.goal.current_revision.clone(),
            verified: copy_revision(&view.goal.last_verified_revision),
        },
    );
    let items = titles(&view.goal.pending_work);
    raise(
        &mut out,
        !view.goal.pending_work.is_empty(),
        FinishObjection::PendingWork { items },
    );
    let criteria = collect_unmet(&view.goal.acceptance_criteria);
    proof {
        assert(views(criteria@).len() == criteria@.len());
    }
    raise(&mut out, !criteria.is_empty(), FinishObjection::UnmetCriteria { criteria });
    out
}

/// Filtering objections and taking them as plain values commute.
proof fn lemma_views_of_filter(objections: Seq<FinishObjection>)
    ensures
        objection_views(blocking_of(objections)) == objection_views(objections).filter(
            |o: Objection| !o.overridable(),
        ),
        objection_views(waived_of(objections)) == objection_views(objections).filter(
            |o: Objection| o.overridable(),
        ),
    decreases objections.len(),
{
    let keep = |o: FinishObjection| !o.overridable();
    let waive = |o: FinishObjection| o.overridable();
    let keep_view = |o: Objection| !o.overridable();
    let waive_view = |o: Objection| o.overridable();
    let to_view = |o: FinishObjection| o@;
    reveal_with_fuel(Seq::filter, 1);
    if objections.len() == 0 {
        assert(objection_views(blocking_of(objections)) =~= objection_views(objections).filter(
            keep_view,
        ));
        assert(objection_views(waived_of(objections)) =~= objection_views(objections).filter(
            waive_view,
        ));
    } else {
        let rest = objections.drop_last();
        let last = objections.last();
        lemma_views_of_filter(rest);
        assert(objections =~= rest.push(last));
        rest.lemma_filter_push(last, keep);
        rest.lemma_filter_push(last, waive);
        rest.lemma_push_map_commute(to_view, last);
        objection_views(rest).lemma_filter_push(last@, keep_view);
        objection_views(rest).lemma_filter_push(last@, waive_view);
        rest.filter(keep).lemma_push_map_commute(to_view, last);
        rest.filter(waive).lemma_push_map_commute(to_view, last);
    }
}

/// The objections that remain against a request.
pub open spec fn remaining(view: TaskView, force: bool) -> Seq<Objection> {
    if force {
        view.objections().filter(|o: Objection| !o.overridable())
    } else {
        view.objections()
    }
}

/// Holds a request to complete the task against what the journal says of it.
/// It is accepted exactly where no objection remains; what force waived is
/// recorded.
pub fn validate_finish(view: &TaskView, request: &FinishRequest) -> (r: FinishVerdict)
    ensures
        objection_views(r.objections@) == remaining(*view, request.force),
        objection_views(r.waived@) == if request.force {
            view.objections().filter(|o: Objection| o.overridable())
        } else {
            Seq::empty()
        },
        r.accepted == (remaining(*view, request.force).len() == 0),
        is_verdict(*view, request.force, r),
{
    let objections = finish_objections(view);
    proof {
        lemma_views_of_filter(objections@);
    }
    let verdict = FinishVerdict::evaluate(objections, request.force);
    proof {
        assert(objection_views(verdict.objections@).len() == verdict.objections@.len());
        if !request.force {
            assert(objection_views(verdict.waived@) =~= Seq::<Objection>::empty());
        }
    }
    verdict
}

/// Completion is refused, forced or not, while a worker is unresolved, a
/// process runs, an execution has no known outcome, the newest verification of
/// some kind failed, a delta was neither integrated nor discarded, a conflict
/// is open, or the workspace changed after the last passing verification.
pub proof fn law_finish_refused_over_runtime_facts(view: TaskView, force: bool)
    requires
        unresolved_agents(view.agents@).len() > 0 || running_processes(view.processes@).len() > 0
            || view.outcome_unknown_executions@.len() > 0 || failed_kinds(view.evidence@).len() > 0
            || view.unintegrated_workspaces@.len() > 0 || view.open_conflict_paths@.len() > 0
            || view.verification_is_stale(),
    ensures
        remaining(view, force).len() > 0,
{
    let all = view.objections();
    assert(all.len() > 0);
    assert(!all[0].overridable());
    let keep = |o: Objection| !o.overridable();
    all.lemma_filter_contains(keep, 0);
    let kept = all.filter(keep);
    assert(kept.contains(all[0]));
}

/// Completion is refused without force while the goal lists pending work or an
/// unmet criterion, and with force exactly where a runtime fact stands against
/// it.
pub proof fn law_force_waives_only_remaining_work(view: TaskView)
    requires
        view.goal.pending_work@.len() > 0 || unmet_criteria(view.goal.acceptance_criteria@).len()
            > 0,
    ensures
        remaining(view, false).len() > 0,
        remaining(view, true).len() == 0 <==> !(unresolved_agents(view.agents@).len() > 0
            || running_processes(view.processes@).len() > 0
            || view.outcome_unknown_executions@.len() > 0 || failed_kinds(view.evidence@).len() > 0
            || view.unintegrated_workspaces@.len() > 0 || view.open_conflict_paths@.len() > 0
            || view.verification_is_stale()),
{
    let all = view.objections();
    assert(all.len() > 0);
    let keep = |o: Objection| !o.overridable();
    if unresolved_agents(view.agents@).len() > 0 || running_processes(view.processes@).len() > 0
        || view.outcome_unknown_executions@.len() > 0 || failed_kinds(view.evidence@).len() > 0
        || view.unintegrated_workspaces@.len() > 0 || view.open_conflict_paths@.len() > 0
        || view.verification_is_stale() {
        law_finish_refused_over_runtime_facts(view, true);
    } else {
        assert forall|i: int| 0 <= i < all.len() implies !keep(#[trigger] all[i]) by {}
        all.lemma_all_neg_filter_empty(keep);
    }
}

/// Where nothing stands against it, completion is accepted, forced or not.
pub proof fn law_clean_finish_is_accepted(view: TaskView, force: bool)
    requires
        view.objections().len() == 0,
    ensures
        remaining(view, force).len() == 0,
{
    reveal_with_fuel(Seq::filter, 1);
}

/// A verification goes stale with the workspace and with the tools: one that is
/// fresh is so no longer once the revision or the prelude has changed, and a
/// prelude that comes or goes is a change.
pub proof fn law_evidence_goes_stale(before: TaskView, after: TaskView, record: EvidenceRecord)
    requires
        before.fresh(record),
        before.goal.current_revision.0@ != after.goal.current_revision.0@ || !same_prelude_spec(
            before.prelude,
            after.prelude,
        ),
    ensures
        !after.fresh(record),
{
}

/// Whether a summary says what a later window must know of a verification.
pub open spec fn summarizes(s: VerificationSummary, record: EvidenceRecord, fresh: bool) -> bool {
    &&& s.kind == record.kind
    &&& s.ok == record.ok
    &&& s.revision == record.revision
    &&& s.fresh == fresh
    &&& s.note == record.note
}

/// Whether a summary says what a later window must know of a worker.
pub open spec fn summarizes_agent(s: AgentSummary, record: AgentRecord) -> bool {
    &&& s.agent == record.agent
    &&& s.task == record.objective
    &&& s.state@ == record.state.name()
    &&& match record.result {
        Some(result) => s.summary == Some(result.summary),
        None => s.summary is None,
    }
}

/// Whether a summary says what a later window must know of a process.
pub open spec fn summarizes_process(s: ProcessSummary, record: ProcessRecord) -> bool {
    &&& s.process == record.process
    &&& s.state == record.state
    &&& s.argv@ == record.argv@
    &&& s.exit_code == record.exit_code
}

/// Whether a checkpoint holds the semantic state of a task: everything the goal
/// records, the newest verification of each kind, the workers and the processes.
pub open spec fn is_checkpoint_of(r: ContextCheckpoint, view: TaskView) -> bool {
    let newest = newest_from(view.evidence@, 0);
    &&& r.task_id == view.task_id
    &&& r.window == view.window
    &&& r.objective == view.goal.objective
    &&& r.status == view.goal.status
    &&& r.acceptance_criteria@ == view.goal.acceptance_criteria@
    &&& r.decisions@ == view.goal.decisions@
    &&& r.completed@ == view.goal.completed_work@
    &&& r.pending@ == view.goal.pending_work@
    &&& r.blockers@ == view.goal.blockers@
    &&& all_kept(r.important_findings@, view.goal.findings@)
    &&& r.failed_approaches@ == view.goal.failed_approaches@
    &&& r.changed_paths@ == view.changed_paths@
    &&& r.verification@.len() == newest.len()
    &&& forall|i: int|
        0 <= i < r.verification@.len() ==> summarizes(
            #[trigger] r.verification@[i],
            view.evidence@[newest[i]],
            view.fresh(view.evidence@[newest[i]]),
        )
    &&& r.active_agents@.len() == view.agents@.len()
    &&& forall|i: int|
        0 <= i < r.active_agents@.len() ==> summarizes_agent(
            #[trigger] r.active_agents@[i],
            view.agents@[i],
        )
    &&& r.active_processes@.len() == view.processes@.len()
    &&& forall|i: int|
        0 <= i < r.active_processes@.len() ==> summarizes_process(
            #[trigger] r.active_processes@[i],
            view.processes@[i],
        )
    &&& r.next_actions@ == view.goal.next_actions@
    &&& r.current_revision == view.goal.current_revision
    &&& r.last_verified_revision == view.goal.last_verified_revision
}

/// Whether a text is a line of what a goal records.
pub open spec fn goal_records(goal: GoalState, line: Seq<char>) -> bool {
    ||| lines_of(goal.acceptance_criteria@).contains(line)
    ||| lines_of(goal.decisions@).contains(line)
    ||| titles_of(goal.completed_work@).contains(line)
    ||| lines_of(goal.pending_work@).contains(line)
    ||| lines_of(goal.blockers@).contains(line)
    ||| lines_of(goal.findings@).contains(line)
    ||| lines_of(goal.failed_approaches@).contains(line)
    ||| views(goal.next_actions@).contains(line)
}

/// What the model recorded survives a rollover: the checkpoint of a task shows
/// every line that its goal records, and every path that it changed.
pub proof fn law_a_rollover_carries_the_goal(
    c: ContextCheckpoint,
    view: TaskView,
    line: Seq<char>,
)
    requires
        is_checkpoint_of(c, view),
        goal_records(view.goal, line) || views(view.changed_paths@).contains(line),
    ensures
        contains(c.rendered(), line),
{
    assert(lines_of(c.important_findings@) =~= lines_of(view.goal.findings@)) by {
        assert forall|i: int| 0 <= i < c.important_findings@.len() implies (
        #[trigger] c.important_findings@[i]).line() == view.goal.findings@[i].line() by {
            assert(c.important_findings@[i].keeps(view.goal.findings@[i]));
        }
    }
    law_checkpoint_shows_what_is_recorded(c, line);
}

/// The semantic state of a task that a fresh window starts from.
pub fn build_checkpoint(view: &TaskView) -> (r: ContextCheckpoint)
    ensures
        is_checkpoint_of(r, *view),
{
    let newest = view.latest_evidence();
    let ghost places = newest_from(view.evidence@, 0);
    proof {
        assert(places.len() == newest@.len());
    }
    let mut verification: Vec<VerificationSummary> = Vec::new();
    let mut i: usize = 0;
    while i < newest.len()
        invariant
            i <= newest.len(),
            positions(newest@) == places,
            forall|k: int| 0 <= k < newest.len() ==> (#[trigger] newest@[k]) < view.evidence@.len(),
            verification@.len() == i,
            forall|k: int|
                0 <= k < i ==> summarizes(
                    #[trigger] verification@[k],
                    view.evidence@[places[k]],
                    view.fresh(view.evidence@[places[k]]),
                ),
        decreases newest.len() - i,
    {
        proof {
            assert(places[i as int] == newest@[i as int] as int);
        }
        let record = &view.evidence[newest[i]];
        verification.push(
            VerificationSummary {
                kind: record.kind.clone(),
                ok: record.ok,
                revision: record.revision.clone(),
                fresh: view.evidence_is_fresh(record),
                note: copy_text(&record.note),
            },
        );
        i = i + 1;
    }
    let mut active_agents: Vec<AgentSummary> = Vec::new();
    let mut j: usize = 0;
    while j < view.agents.len()
        invariant
            j <= view.agents.len(),
            active_agents@.len() == j,
            forall|k: int|
                0 <= k < j ==> summarizes_agent(#[trigger] active_agents@[k], view.agents@[k]),
        decreases view.agents.len() - j,
    {
        let record = &view.agents[j];
        let summary = match &record.result {
            Some(result) => Some(result.summary.clone()),
            None => None,
        };
        active_agents.push(
            AgentSummary {
                agent: record.agent,
                task: record.objective.clone(),
                state: text(record.state.label()),
                summary,
            },
        );
        j = j + 1;
    }
    let mut active_processes: Vec<ProcessSummary> = Vec::new();
    let mut m: usize = 0;
    while m < view.processes.len()
        invariant
            m <= view.processes.len(),
            active_processes@.len() == m,
            forall|k: int|
                0 <= k < m ==> summarizes_process(
                    #[trigger] active_processes@[k],
                    view.processes@[k],
                ),
        decreases view.processes.len() - m,
    {
        let record = &view.processes[m];
        active_processes.push(
            ProcessSummary {
                process: record.process,
                argv: copy_strings(&record.argv),
                state: record.state.clone(),
                exit_code: record.exit_code,
            },
        );
        m = m + 1;
    }
    let acceptance_criteria = copy_kept(&view.goal.acceptance_criteria);
    let decisions = copy_kept(&view.goal.decisions);
    let blockers = copy_kept(&view.goal.blockers);
    let failed_approaches = copy_kept(&view.goal.failed_approaches);
    proof {
        assert(acceptance_criteria@ =~= view.goal.acceptance_criteria@);
        assert(decisions@ =~= view.goal.decisions@);
        assert(blockers@ =~= view.goal.blockers@);
        assert(failed_approaches@ =~= view.goal.failed_approaches@);
    }
    ContextCheckpoint {
        task_id: view.task_id,
        window: view.window,
        objective: view.goal.objective.clone(),
        status: view.goal.status,
        acceptance_criteria,
        decisions,
        completed: copy_work(&view.goal.completed_work),
        pending: copy_work(&view.goal.pending_work),
        blockers,
        important_findings: copy_kept(&view.goal.findings),
        failed_approaches,
        changed_paths: copy_strings(&view.changed_paths),
        verification,
        active_agents,
        active_processes,
        next_actions: copy_strings(&view.goal.next_actions),
        current_revision: view.goal.current_revision.clone(),
        last_verified_revision: copy_revision(&view.goal.last_verified_revision),
    }
}

} // verus!
