//! Durable goal state and explicit completion.
//!
//! Text from the model is an ordinary message. Completion is a separate act: a
//! [`FinishRequest`] is held against durable state, and the objections that
//! remain decide whether the task may complete.
use vstd::prelude::*;
use vstd::string::StringExecFns;
use crate::identity::{copy_text, AgentId, ExecutionId, Numbered, ProcessId, RevisionId, TaskId};
use crate::json::{list_json, quote, quoted, texts_json, write_list, write_texts, Json};
use crate::text::{contains, copy_strings, decimal, decimal_text, join, joined, occurs_at, signed_decimal, signed_text, size_text, text, views};

verus! {

/// Lifecycle of a durable task.
#[derive(Clone, Copy, Debug, PartialEq, Eq, Structural)]
pub enum TaskStatus {
    Queued,
    Running,
    WaitingAgent,
    WaitingProcess,
    WaitingUser,
    Blocked,
    Verifying,
    Completed,
    Failed,
    Cancelled,
}

impl TaskStatus {
    /// Whether the task still owns work.
    pub open spec fn active(self) -> bool {
        !(self is Completed || self is Failed || self is Cancelled)
    }

    /// The name of the status.
    pub open spec fn name(self) -> Seq<char> {
        match self {
            TaskStatus::Queued => "queued"@,
            TaskStatus::Running => "running"@,
            TaskStatus::WaitingAgent => "waiting-agent"@,
            TaskStatus::WaitingProcess => "waiting-process"@,
            TaskStatus::WaitingUser => "waiting-user"@,
            TaskStatus::Blocked => "blocked"@,
            TaskStatus::Verifying => "verifying"@,
            TaskStatus::Completed => "completed"@,
            TaskStatus::Failed => "failed"@,
            TaskStatus::Cancelled => "cancelled"@,
        }
    }

    /// Whether the task still owns work. A terminal task is never resumed.
    pub fn is_active(self) -> (r: bool)
        ensures
            r == self.active(),
    {
        match self {
            TaskStatus::Completed | TaskStatus::Failed | TaskStatus::Cancelled => false,
            _ => true,
        }
    }

    /// The name of the status.
    pub fn label(self) -> (r: &'static str)
        ensures
            r@ == self.name(),
    {
        match self {
            TaskStatus::Queued => "queued",
            TaskStatus::Running => "running",
            TaskStatus::WaitingAgent => "waiting-agent",
            TaskStatus::WaitingProcess => "waiting-process",
            TaskStatus::WaitingUser => "waiting-user",
            TaskStatus::Blocked => "blocked",
            TaskStatus::Verifying => "verifying",
            TaskStatus::Completed => "completed",
            TaskStatus::Failed => "failed",
            TaskStatus::Cancelled => "cancelled",
        }
    }
}

/// A unit of work the model committed to.
#[derive(Clone, Debug, PartialEq, Eq)]
pub struct WorkItem {
    pub title: String,
    pub detail: Option<String>,
}

impl WorkItem {
    /// A work item without detail.
    pub fn new(title: &str) -> (r: WorkItem)
        ensures
            r.title@ == title@,
            r.detail is None,
    {
        WorkItem { title: text(title), detail: None }
    }
}

/// Something that prevents progress.
#[derive(Clone, Debug, PartialEq, Eq)]
pub struct Blocker {
    pub summary: String,
    pub needs: Option<String>,
}

/// A condition the task must satisfy before `finish()` is honest.
#[derive(Clone, Debug, PartialEq, Eq)]
pub struct AcceptanceCriterion {
    pub description: String,
    pub met: bool,
    pub evidence_kind: Option<String>,
}

/// A durable conclusion.
#[derive(Clone, Debug, PartialEq, Eq)]
pub struct Finding {
    pub summary: String,
    pub paths: Vec<String>,
}

/// An approach already proven not to work.
#[derive(Clone, Debug, PartialEq, Eq)]
pub struct Failure {
    pub approach: String,
    pub reason: String,
}

/// A decision that later windows must not silently reverse.
#[derive(Clone, Debug, PartialEq, Eq)]
pub struct Decision {
    pub decision: String,
    pub rationale: Option<String>,
}

/// Model-supplied goal state. Each field replaces the current one where it is present.
#[derive(Clone, Debug, PartialEq, Eq)]
pub struct GoalUpdate {
    pub objective: Option<String>,
    pub acceptance_criteria: Option<Vec<AcceptanceCriterion>>,
    pub completed: Option<Vec<WorkItem>>,
    pub pending: Option<Vec<WorkItem>>,
    pub blockers: Option<Vec<Blocker>>,
    pub decisions: Option<Vec<Decision>>,
    pub findings: Option<Vec<Finding>>,
    pub failed_approaches: Option<Vec<Failure>>,
    pub next_actions: Option<Vec<String>>,
}

impl Default for GoalUpdate {
    fn default() -> (r: GoalUpdate)
        ensures
            r.empty(),
    {
        GoalUpdate {
            objective: None,
            acceptance_criteria: None,
            completed: None,
            pending: None,
            blockers: None,
            decisions: None,
            findings: None,
            failed_approaches: None,
            next_actions: None,
        }
    }
}

impl GoalUpdate {
    /// The update that supplies no field.
    pub open spec fn empty(&self) -> bool {
        &&& self.objective is None
        &&& self.acceptance_criteria is None
        &&& self.completed is None
        &&& self.pending is None
        &&& self.blockers is None
        &&& self.decisions is None
        &&& self.findings is None
        &&& self.failed_approaches is None
        &&& self.next_actions is None
    }

    /// Whether the update supplies no field.
    pub fn is_empty(&self) -> (r: bool)
        ensures
            r == self.empty(),
    {
        self.objective.is_none() && self.acceptance_criteria.is_none() && self.completed.is_none()
            && self.pending.is_none() && self.blockers.is_none() && self.decisions.is_none()
            && self.findings.is_none() && self.failed_approaches.is_none()
            && self.next_actions.is_none()
    }
}

/// The new value where it is supplied, else the current one.
pub open spec fn replaced<T>(new: Option<T>, current: T) -> T {
    match new {
        Some(value) => value,
        None => current,
    }
}

/// The durable goal of a task: what it is for, and how far it has got.
#[derive(Clone, Debug, PartialEq, Eq)]
pub struct GoalState {
    pub task_id: TaskId,
    pub objective: String,
    pub status: TaskStatus,
    pub acceptance_criteria: Vec<AcceptanceCriterion>,
    pub completed_work: Vec<WorkItem>,
    pub pending_work: Vec<WorkItem>,
    pub blockers: Vec<Blocker>,
    pub decisions: Vec<Decision>,
    pub findings: Vec<Finding>,
    pub failed_approaches: Vec<Failure>,
    pub next_actions: Vec<String>,
    pub current_revision: RevisionId,
    pub last_verified_revision: Option<RevisionId>,
}

impl GoalState {
    /// The state after an update: each supplied field replaced, the rest kept.
    pub open spec fn updated(self, update: GoalUpdate) -> GoalState {
        GoalState {
            task_id: self.task_id,
            objective: replaced(update.objective, self.objective),
            status: self.status,
            acceptance_criteria: replaced(update.acceptance_criteria, self.acceptance_criteria),
            completed_work: replaced(update.completed, self.completed_work),
            pending_work: replaced(update.pending, self.pending_work),
            blockers: replaced(update.blockers, self.blockers),
            decisions: replaced(update.decisions, self.decisions),
            findings: replaced(update.findings, self.findings),
            failed_approaches: replaced(update.failed_approaches, self.failed_approaches),
            next_actions: replaced(update.next_actions, self.next_actions),
            current_revision: self.current_revision,
            last_verified_revision: self.last_verified_revision,
        }
    }

    /// Whether the newest passing verification is of the current revision.
    pub open spec fn verified_now(&self) -> bool {
        match self.last_verified_revision {
            Some(revision) => revision.0@ == self.current_revision.0@,
            None => false,
        }
    }

    /// A running goal with nothing recorded yet.
    pub fn new(task_id: TaskId, objective: String, current_revision: RevisionId) -> (r: GoalState)
        ensures
            r.task_id == task_id,
            r.objective == objective,
            r.status is Running,
            r.acceptance_criteria@.len() == 0,
            r.completed_work@.len() == 0,
            r.pending_work@.len() == 0,
            r.blockers@.len() == 0,
            r.decisions@.len() == 0,
            r.findings@.len() == 0,
            r.failed_approaches@.len() == 0,
            r.next_actions@.len() == 0,
            r.current_revision == current_revision,
            r.last_verified_revision is None,
    {
        GoalState {
            task_id,
            objective,
            status: TaskStatus::Running,
            acceptance_criteria: Vec::new(),
            completed_work: Vec::new(),
            pending_work: Vec::new(),
            blockers: Vec::new(),
            decisions: Vec::new(),
            findings: Vec::new(),
            failed_approaches: Vec::new(),
            next_actions: Vec::new(),
            current_revision,
            last_verified_revision: None,
        }
    }

    /// Applies a model-supplied update. Every field is replaced if present, so
    /// the model can amend one list without restating the rest.
    pub fn apply(&mut self, update: GoalUpdate)
        ensures
            *final(self) == old(self).updated(update),
    {
        if let Some(objective) = update.objective {
            self.objective = objective;
        }
        if let Some(criteria) = update.acceptance_criteria {
            self.acceptance_criteria = criteria;
        }
        if let Some(completed) = update.completed {
            self.completed_work = completed;
        }
        if let Some(pending) = update.pending {
            self.pending_work = pending;
        }
        if let Some(blockers) = update.blockers {
            self.blockers = blockers;
        }
        if let Some(decisions) = update.decisions {
            self.decisions = decisions;
        }
        if let Some(findings) = update.findings {
            self.findings = findings;
        }
        if let Some(failures) = update.failed_approaches {
            self.failed_approaches = failures;
        }
        if let Some(next) = update.next_actions {
            self.next_actions = next;
        }
    }

    /// Whether verification still describes the current workspace content.
    pub fn verification_is_current(&self) -> (r: bool)
        ensures
            r == self.verified_now(),
    {
        match &self.last_verified_revision {
            Some(revision) => revision.same(&self.current_revision),
            None => false,
        }
    }
}

/// An empty update changes nothing.
pub proof fn law_empty_update_changes_nothing(goal: GoalState, update: GoalUpdate)
    requires
        update.empty(),
    ensures
        goal.updated(update) == goal,
{
}

/// Of two updates that supply different fields, the order does not matter: an
/// update replaces only what it supplies.
pub proof fn law_updates_of_other_fields_commute(goal: GoalState, a: GoalUpdate, b: GoalUpdate)
    requires
        a.objective is None || b.objective is None,
        a.acceptance_criteria is None || b.acceptance_criteria is None,
        a.completed is None || b.completed is None,
        a.pending is None || b.pending is None,
        a.blockers is None || b.blockers is None,
        a.decisions is None || b.decisions is None,
        a.findings is None || b.findings is None,
        a.failed_approaches is None || b.failed_approaches is None,
        a.next_actions is None || b.next_actions is None,
    ensures
        goal.updated(a).updated(b) == goal.updated(b).updated(a),
{
}

/// An update never touches what the journal derives: the task, its status and
/// its revisions.
pub proof fn law_update_keeps_derived_state(goal: GoalState, update: GoalUpdate)
    ensures
        goal.updated(update).task_id == goal.task_id,
        goal.updated(update).status == goal.status,
        goal.updated(update).current_revision == goal.current_revision,
        goal.updated(update).last_verified_revision == goal.last_verified_revision,
{
}

/// A model request to complete the task.
#[derive(Clone, Debug, PartialEq, Eq)]
pub struct FinishRequest {
    pub summary: String,
    pub unresolved: Vec<String>,
    pub evidence: Json,
    /// Set when the model knowingly finishes with work left over.
    pub force: bool,
}

impl Default for FinishRequest {
    /// The request of a `finish()` without arguments: nothing is said, and
    /// nothing is forced.
    fn default() -> (r: FinishRequest)
        ensures
            r.summary@.len() == 0,
            r.unresolved@.len() == 0,
            r.evidence.text@ == "null"@,
            !r.force,
    {
        FinishRequest {
            summary: String::new(),
            unresolved: Vec::new(),
            evidence: Json::null(),
            force: false,
        }
    }
}

/// Why a `finish()` call was refused.
#[derive(Clone, Debug, PartialEq, Eq)]
pub enum FinishObjection {
    /// Workers that have neither completed nor been cancelled.
    UnresolvedAgents { agents: Vec<AgentId> },
    /// Background processes still running under the task.
    RunningProcesses { processes: Vec<ProcessId> },
    /// PTC executions admitted by a lost runner without a durable outcome.
    OutcomeUnknownExecutions { executions: Vec<ExecutionId> },
    /// The newest verification of this kind failed.
    FailedVerification { kinds: Vec<String> },
    /// The workspace changed after the last passing verification.
    StaleVerification { current: RevisionId, verified: Option<RevisionId> },
    /// The model's own goal state still lists work.
    PendingWork { items: Vec<String> },
    /// Acceptance criteria the model has not marked met.
    UnmetCriteria { criteria: Vec<String> },
    /// An isolated child delta was never integrated or discarded.
    UnintegratedWorkspaces { workspaces: Vec<u64> },
    /// An integration conflict was reported and never resolved.
    OpenConflict { paths: Vec<String> },
}

/// The numbers of a list of identities, each in decimal.
pub open spec fn id_numbers<T: Numbered>(ids: Seq<T>) -> Seq<Seq<char>> {
    ids.map_values(|id: T| decimal(id.number() as nat))
}

/// Writes each number of a list of identities.
fn number_ids<T: Numbered>(ids: &Vec<T>) -> (r: Vec<String>)
    ensures
        views(r@) == id_numbers(ids@),
{
    let mut parts: Vec<String> = Vec::new();
    let mut i: usize = 0;
    let ghost numbers = id_numbers(ids@);
    while i < ids.len()
        invariant
            i <= ids.len(),
            numbers == id_numbers(ids@),
            views(parts@) == numbers.take(i as int),
        decreases ids.len() - i,
    {
        let ghost old_parts = parts@;
        parts.push(decimal_text(ids[i].get_number()));
        proof {
            assert(views(parts@) =~= views(old_parts).push(numbers[i as int]));
            assert(numbers.take(i + 1) =~= numbers.take(i as int).push(numbers[i as int]));
        }
        i = i + 1;
    }
    proof {
        assert(numbers.take(i as int) =~= numbers);
    }
    parts
}

/// The numbers of a list of identities, separated by commas.
pub open spec fn ids_text<T: Numbered>(ids: Seq<T>) -> Seq<char> {
    joined(id_numbers(ids), ", "@)
}

/// Writes the numbers of a list of identities, separated by commas.
pub fn join_ids<T: Numbered>(ids: &Vec<T>) -> (r: String)
    ensures
        r@ == ids_text(ids@),
{
    join(&number_ids(ids), ", ")
}

/// The numbers of a list of identities as JSON has them.
pub open spec fn ids_json<T: Numbered>(ids: Seq<T>) -> Seq<char> {
    list_json(id_numbers(ids))
}

/// Writes the numbers of a list of identities as JSON has them.
fn write_ids<T: Numbered>(ids: &Vec<T>) -> (r: String)
    ensures
        r@ == ids_json(ids@),
{
    write_list(&number_ids(ids))
}

impl FinishObjection {
    /// Whether `force: true` may override the objection: only judgement about
    /// remaining work is the model's to waive.
    pub open spec fn overridable(self) -> bool {
        self is PendingWork || self is UnmetCriteria
    }

    /// The explanation the model reads.
    pub open spec fn explanation(self) -> Seq<char> {
        match self {
            FinishObjection::UnresolvedAgents { agents } => decimal(agents@.len())
                + " delegated worker(s) are still unresolved: "@ + ids_text(agents@)
                + ". Join or cancel them first."@,
            FinishObjection::RunningProcesses { processes } => decimal(processes@.len())
                + " background process(es) are still running: "@ + ids_text(processes@)
                + ". Wait for or kill them first."@,
            FinishObjection::OutcomeUnknownExecutions { executions } => decimal(executions@.len())
                + " PTC execution(s) have unknown outcomes: "@ + ids_text(executions@)
                + ". Inspect their effects before retrying or finishing."@,
            FinishObjection::FailedVerification { kinds } => "the newest verification failed for: "@
                + joined(views(kinds@), ", "@) + ". Fix and re-record evidence."@,
            FinishObjection::StaleVerification { current, verified } => "the workspace is at revision "@
                + current.0@ + " but the last passing verification was "@ + (match verified {
                Some(revision) => revision.0@,
                None => "never recorded"@,
            }) + ". Re-verify."@,
            FinishObjection::PendingWork { items } => "pending work remains: "@ + joined(
                views(items@),
                "; "@,
            ),
            FinishObjection::UnmetCriteria { criteria } => "unmet acceptance criteria: "@ + joined(
                views(criteria@),
                "; "@,
            ),
            FinishObjection::UnintegratedWorkspaces { workspaces } => "isolated child workspace(s) "@
                + ids_text(workspaces@) + " were never integrated or discarded."@,
            FinishObjection::OpenConflict { paths } => "an integration conflict on "@ + joined(
                views(paths@),
                ", "@,
            ) + " was never resolved."@,
        }
    }

    /// Whether `force: true` may override this objection.
    ///
    /// Runtime facts (a live worker, a running process, an unmerged delta, a
    /// failed or outdated verification) are not the model's to overrule.
    /// Judgement about remaining work is.
    pub fn is_overridable(&self) -> (r: bool)
        ensures
            r == self.overridable(),
    {
        match self {
            FinishObjection::PendingWork { .. } => true,
            FinishObjection::UnmetCriteria { .. } => true,
            _ => false,
        }
    }

    /// The explanation the model reads.
    pub fn explain(&self) -> (r: String)
        ensures
            r@ == self.explanation(),
    {
        match self {
            FinishObjection::UnresolvedAgents { agents } => {
                let mut s = size_text(agents.len());
                s.append(" delegated worker(s) are still unresolved: ");
                s.append(join_ids(agents).as_str());
                s.append(". Join or cancel them first.");
                s
            },
            FinishObjection::RunningProcesses { processes } => {
                let mut s = size_text(processes.len());
                s.append(" background process(es) are still running: ");
                s.append(join_ids(processes).as_str());
                s.append(". Wait for or kill them first.");
                s
            },
            FinishObjection::OutcomeUnknownExecutions { executions } => {
                let mut s = size_text(executions.len());
                s.append(" PTC execution(s) have unknown outcomes: ");
                s.append(join_ids(executions).as_str());
                s.append(". Inspect their effects before retrying or finishing.");
                s
            },
            FinishObjection::FailedVerification { kinds } => {
                let mut s = text("the newest verification failed for: ");
                s.append(join(kinds, ", ").as_str());
                s.append(". Fix and re-record evidence.");
                s
            },
            FinishObjection::StaleVerification { current, verified } => {
                let mut s = text("the workspace is at revision ");
                s.append(current.0.as_str());
                s.append(" but the last passing verification was ");
                match verified {
                    Some(revision) => s.append(revision.0.as_str()),
                    None => s.append("never recorded"),
                }
                s.append(". Re-verify.");
                s
            },
            FinishObjection::PendingWork { items } => {
                let mut s = text("pending work remains: ");
                s.append(join(items, "; ").as_str());
                s
            },
            FinishObjection::UnmetCriteria { criteria } => {
                let mut s = text("unmet acceptance criteria: ");
                s.append(join(criteria, "; ").as_str());
                s
            },
            FinishObjection::UnintegratedWorkspaces { workspaces } => {
                let mut s = text("isolated child workspace(s) ");
                s.append(join_ids(workspaces).as_str());
                s.append(" were never integrated or discarded.");
                s
            },
            FinishObjection::OpenConflict { paths } => {
                let mut s = text("an integration conflict on ");
                s.append(join(paths, ", ").as_str());
                s.append(" was never resolved.");
                s
            },
        }
    }
}

impl FinishObjection {
    /// The objection as a program reads it: an object under its name, with what
    /// it is about.
    pub open spec fn json(self) -> Seq<char> {
        match self {
            FinishObjection::UnresolvedAgents { agents } => {
                "{\"unresolvedAgents\":{\"agents\":"@ + ids_json(agents@) + "}}"@
            },
            FinishObjection::RunningProcesses { processes } => {
                "{\"runningProcesses\":{\"processes\":"@ + ids_json(processes@) + "}}"@
            },
            FinishObjection::OutcomeUnknownExecutions { executions } => {
                "{\"outcomeUnknownExecutions\":{\"executions\":"@ + ids_json(executions@) + "}}"@
            },
            FinishObjection::FailedVerification { kinds } => {
                "{\"failedVerification\":{\"kinds\":"@ + texts_json(views(kinds@)) + "}}"@
            },
            FinishObjection::StaleVerification { current, verified } => {
                "{\"staleVerification\":{\"current\":"@ + quoted(current.0@) + ",\"verified\":"@ + (
                match verified {
                    Some(revision) => quoted(revision.0@),
                    None => "null"@,
                }) + "}}"@
            },
            FinishObjection::PendingWork { items } => {
                "{\"pendingWork\":{\"items\":"@ + texts_json(views(items@)) + "}}"@
            },
            FinishObjection::UnmetCriteria { criteria } => {
                "{\"unmetCriteria\":{\"criteria\":"@ + texts_json(views(criteria@)) + "}}"@
            },
            FinishObjection::UnintegratedWorkspaces { workspaces } => {
                "{\"unintegratedWorkspaces\":{\"workspaces\":"@ + ids_json(workspaces@) + "}}"@
            },
            FinishObjection::OpenConflict { paths } => {
                "{\"openConflict\":{\"paths\":"@ + texts_json(views(paths@)) + "}}"@
            },
        }
    }

    /// The objection as a program reads it.
    pub fn to_json(&self) -> (r: Json)
        ensures
            r.text@ == self.json(),
    {
        let s = match self {
            FinishObjection::UnresolvedAgents { agents } => {
                let mut s = text("{\"unresolvedAgents\":{\"agents\":");
                s.append(write_ids(agents).as_str());
                s.append("}}");
                s
            },
            FinishObjection::RunningProcesses { processes } => {
                let mut s = text("{\"runningProcesses\":{\"processes\":");
                s.append(write_ids(processes).as_str());
                s.append("}}");
                s
            },
            FinishObjection::OutcomeUnknownExecutions { executions } => {
                let mut s = text("{\"outcomeUnknownExecutions\":{\"executions\":");
                s.append(write_ids(executions).as_str());
                s.append("}}");
                s
            },
            FinishObjection::FailedVerification { kinds } => {
                let mut s = text("{\"failedVerification\":{\"kinds\":");
                s.append(write_texts(kinds).as_str());
                s.append("}}");
                s
            },
            FinishObjection::StaleVerification { current, verified } => {
                let mut s = text("{\"staleVerification\":{\"current\":");
                s.append(quote(current.0.as_str()).as_str());
                s.append(",\"verified\":");
                match verified {
                    Some(revision) => s.append(quote(revision.0.as_str()).as_str()),
                    None => s.append("null"),
                }
                s.append("}}");
                s
            },
            FinishObjection::PendingWork { items } => {
                let mut s = text("{\"pendingWork\":{\"items\":");
                s.append(write_texts(items).as_str());
                s.append("}}");
                s
            },
            FinishObjection::UnmetCriteria { criteria } => {
                let mut s = text("{\"unmetCriteria\":{\"criteria\":");
                s.append(write_texts(criteria).as_str());
                s.append("}}");
                s
            },
            FinishObjection::UnintegratedWorkspaces { workspaces } => {
                let mut s = text("{\"unintegratedWorkspaces\":{\"workspaces\":");
                s.append(write_ids(workspaces).as_str());
                s.append("}}");
                s
            },
            FinishObjection::OpenConflict { paths } => {
                let mut s = text("{\"openConflict\":{\"paths\":");
                s.append(write_texts(paths).as_str());
                s.append("}}");
                s
            },
        };
        Json { text: s }
    }
}

/// Some objections as a program reads them, in order, under the key that `lead`
/// writes; nothing where there are none.
pub open spec fn objections_json(
    lead: Seq<char>,
    objections: Seq<FinishObjection>,
) -> Seq<char> {
    if objections.len() == 0 {
        Seq::empty()
    } else {
        lead + list_json(objections.map_values(|o: FinishObjection| o.json()))
    }
}

/// Writes some objections under the key that `lead` writes, where there are any.
fn write_objections(lead: &str, objections: &Vec<FinishObjection>) -> (r: String)
    ensures
        r@ == objections_json(lead@, objections@),
{
    if objections.is_empty() {
        return String::new();
    }
    let mut items: Vec<String> = Vec::new();
    let mut i: usize = 0;
    let ghost all = objections@.map_values(|o: FinishObjection| o.json());
    while i < objections.len()
        invariant
            i <= objections.len(),
            all == objections@.map_values(|o: FinishObjection| o.json()),
            views(items@) == all.take(i as int),
        decreases objections.len() - i,
    {
        let ghost was = items@;
        items.push(objections[i].to_json().text);
        proof {
            assert(views(items@) =~= views(was).push(all[i as int]));
            assert(all.take(i + 1) =~= all.take(i as int).push(all[i as int]));
        }
        i = i + 1;
    }
    proof {
        assert(all.take(i as int) =~= all);
    }
    let mut s = text(lead);
    s.append(write_list(&items).as_str());
    s
}

/// Outcome of validating a `finish()` request against durable state.
#[derive(Clone, Debug, PartialEq, Eq)]
pub struct FinishVerdict {
    pub accepted: bool,
    pub objections: Vec<FinishObjection>,
    /// Objections waived with `force: true`, recorded rather than dropped.
    pub waived: Vec<FinishObjection>,
}

/// The objections that `force` waives.
pub open spec fn waived_of(objections: Seq<FinishObjection>) -> Seq<FinishObjection> {
    objections.filter(|o: FinishObjection| o.overridable())
}

/// The objections that `force` does not waive.
pub open spec fn blocking_of(objections: Seq<FinishObjection>) -> Seq<FinishObjection> {
    objections.filter(|o: FinishObjection| !o.overridable())
}

/// One line per objection, each led by a dash.
pub open spec fn reason_lines(objections: Seq<FinishObjection>) -> Seq<Seq<char>> {
    objections.map_values(|o: FinishObjection| "- "@ + o.explanation())
}

impl FinishVerdict {
    /// The explanation of the verdict that the model reads.
    pub open spec fn explanation(self) -> Seq<char> {
        if self.accepted {
            "finish accepted"@
        } else {
            "finish() refused: the task is not complete.\n"@ + joined(
                reason_lines(self.objections@),
                "\n"@,
            )
                + "\nResolve these, or call finish({ force: true }) if only pending-work judgement remains."@
        }
    }

    /// The verdict without objections.
    pub fn accepted() -> (r: FinishVerdict)
        ensures
            r.accepted,
            r.objections@.len() == 0,
            r.waived@.len() == 0,
    {
        FinishVerdict { accepted: true, objections: Vec::new(), waived: Vec::new() }
    }

    /// Splits objections by whether `force` may override them. The request is
    /// accepted exactly where no objection remains.
    pub fn evaluate(objections: Vec<FinishObjection>, force: bool) -> (r: FinishVerdict)
        ensures
            force ==> r.objections@ == blocking_of(objections@) && r.waived@ == waived_of(
                objections@,
            ),
            !force ==> r.objections@ == objections@ && r.waived@.len() == 0,
            r.accepted == (r.objections@.len() == 0),
    {
        if !force {
            let accepted = objections.is_empty();
            return FinishVerdict { accepted, objections, waived: Vec::new() };
        }
        let ghost all = objections@;
        let mut waived: Vec<FinishObjection> = Vec::new();
        let mut blocking: Vec<FinishObjection> = Vec::new();
        proof {
            assert(all.take(0) =~= Seq::<FinishObjection>::empty());
            reveal_with_fuel(Seq::filter, 1);
        }
        for objection in iter: objections
            invariant
                iter.seq() == all,
                waived@ == waived_of(all.take(iter.index() as int)),
                blocking@ == blocking_of(all.take(iter.index() as int)),
        {
            let ghost done = all.take(iter.index() as int);
            proof {
                let next = all.take(iter.index() + 1);
                assert(next.drop_last() =~= done);
                assert(next.last() == objection);
                reveal_with_fuel(Seq::filter, 2);
            }
            if objection.is_overridable() {
                waived.push(objection);
            } else {
                blocking.push(objection);
            }
        }
        proof {
            assert(all.take(all.len() as int) =~= all);
        }
        FinishVerdict { accepted: blocking.is_empty(), objections: blocking, waived }
    }

    /// Model-facing explanation of why completion was refused.
    pub fn explain(&self) -> (r: String)
        ensures
            r@ == self.explanation(),
    {
        if self.accepted {
            return text("finish accepted");
        }
        let mut reasons: Vec<String> = Vec::new();
        let mut i: usize = 0;
        let ghost lines = reason_lines(self.objections@);
        while i < self.objections.len()
            invariant
                i <= self.objections.len(),
                lines == reason_lines(self.objections@),
                views(reasons@) == lines.take(i as int),
            decreases self.objections.len() - i,
        {
            let mut line = text("- ");
            line.append(self.objections[i].explain().as_str());
            let ghost old_reasons = reasons@;
            reasons.push(line);
            proof {
                assert(views(reasons@) =~= views(old_reasons).push(lines[i as int]));
                assert(lines.take(i + 1) =~= lines.take(i as int).push(lines[i as int]));
            }
            i = i + 1;
        }
        proof {
            assert(lines.take(i as int) =~= lines);
        }
        let mut s = text("finish() refused: the task is not complete.\n");
        s.append(join(&reasons, "\n").as_str());
        s.append(
            "\nResolve these, or call finish({ force: true }) if only pending-work judgement remains.",
        );
        s
    }

    /// The value that `finish()` answers with: whether it was accepted, the
    /// explanation, and the objections and the waived ones, in order, where
    /// there are any.
    pub open spec fn answer_json(self) -> Seq<char> {
        "{\"accepted\":"@ + (if self.accepted {
            "true"@
        } else {
            "false"@
        }) + ",\"explanation\":"@ + quoted(self.explanation()) + objections_json(
            ",\"objections\":"@,
            self.objections@,
        ) + objections_json(",\"waived\":"@, self.waived@) + "}"@
    }

    /// The value that `finish()` answers with. A refusal is such a value too, so
    /// that the program can act on it and try again.
    pub fn answer(&self) -> (r: Json)
        ensures
            r.text@ == self.answer_json(),
    {
        let mut s = text("{\"accepted\":");
        if self.accepted {
            s.append("true");
        } else {
            s.append("false");
        }
        s.append(",\"explanation\":");
        s.append(quote(self.explain().as_str()).as_str());
        s.append(write_objections(",\"objections\":", &self.objections).as_str());
        s.append(write_objections(",\"waived\":", &self.waived).as_str());
        s.append("}");
        Json { text: s }
    }
}

/// A refused finish is answered with a value that says so: the explanation and
/// every objection that remains stand in it, in order, and after them those that
/// were waived.
pub proof fn law_a_refused_finish_is_a_value(
    objections: Seq<FinishObjection>,
    force: bool,
    verdict: FinishVerdict,
)
    requires
        verdict.objections@ == if force {
            blocking_of(objections)
        } else {
            objections
        },
        verdict.waived@ == if force {
            waived_of(objections)
        } else {
            Seq::empty()
        },
        verdict.accepted == (verdict.objections@.len() == 0),
        verdict.objections@.len() > 0,
    ensures
        verdict.answer_json() == "{\"accepted\":"@ + "false"@ + ",\"explanation\":"@ + quoted(
            verdict.explanation(),
        ) + (",\"objections\":"@ + list_json(
            verdict.objections@.map_values(|o: FinishObjection| o.json()),
        )) + objections_json(",\"waived\":"@, verdict.waived@) + "}"@,
        !force ==> objections_json(",\"waived\":"@, verdict.waived@).len() == 0,
        verdict.explanation() == "finish() refused: the task is not complete.\n"@ + joined(
            reason_lines(verdict.objections@),
            "\n"@,
        )
            + "\nResolve these, or call finish({ force: true }) if only pending-work judgement remains."@,
{
}

/// Whether an objection states a fact of the runtime rather than a judgement
/// about remaining work.
pub open spec fn is_runtime_fact(o: FinishObjection) -> bool {
    ||| o is UnresolvedAgents
    ||| o is RunningProcesses
    ||| o is OutcomeUnknownExecutions
    ||| o is FailedVerification
    ||| o is StaleVerification
    ||| o is UnintegratedWorkspaces
    ||| o is OpenConflict
}

/// Force never waives a runtime fact: a request that meets such an objection is
/// refused, and the objection stays among those reported.
pub proof fn law_force_never_waives_runtime_facts(objections: Seq<FinishObjection>, i: int)
    requires
        0 <= i < objections.len(),
        is_runtime_fact(objections[i]),
    ensures
        blocking_of(objections).contains(objections[i]),
        !waived_of(objections).contains(objections[i]),
        blocking_of(objections).len() > 0,
{
    let keep = |o: FinishObjection| !o.overridable();
    let waive = |o: FinishObjection| o.overridable();
    objections.lemma_filter_contains(keep, i);
    assert(blocking_of(objections).contains(objections[i]));
    if waived_of(objections).contains(objections[i]) {
        let k = choose|k: int|
            0 <= k < waived_of(objections).len() && waived_of(objections)[k] == objections[i];
        objections.lemma_filter_pred(waive, k);
    }
}

/// Force loses nothing: each objection is either reported or recorded as waived.
pub proof fn law_force_partitions_objections(objections: Seq<FinishObjection>)
    ensures
        blocking_of(objections).len() + waived_of(objections).len() == objections.len(),
        forall|i: int|
            0 <= i < objections.len() ==> blocking_of(objections).contains(objections[i])
                || waived_of(objections).contains(#[trigger] objections[i]),
    decreases objections.len(),
{
    let keep = |o: FinishObjection| !o.overridable();
    let waive = |o: FinishObjection| o.overridable();
    assert forall|i: int| 0 <= i < objections.len() implies blocking_of(objections).contains(
        objections[i],
    ) || waived_of(objections).contains(#[trigger] objections[i]) by {
        if keep(objections[i]) {
            objections.lemma_filter_contains(keep, i);
        } else {
            objections.lemma_filter_contains(waive, i);
        }
    }
    if objections.len() > 0 {
        law_force_partitions_objections(objections.drop_last());
    }
    reveal_with_fuel(Seq::filter, 2);
}

/// A forced request with nothing but judgement left is accepted.
pub proof fn law_force_accepts_judgement_only(objections: Seq<FinishObjection>)
    requires
        forall|i: int| 0 <= i < objections.len() ==> (#[trigger] objections[i]).overridable(),
    ensures
        blocking_of(objections).len() == 0,
        waived_of(objections) == objections,
    decreases objections.len(),
{
    reveal_with_fuel(Seq::filter, 2);
    if objections.len() > 0 {
        let rest = objections.drop_last();
        assert forall|i: int| 0 <= i < rest.len() implies (#[trigger] rest[i]).overridable() by {
            assert(rest[i] == objections[i]);
        }
        law_force_accepts_judgement_only(rest);
        assert(objections =~= rest.push(objections.last()));
    } else {
        assert(objections =~= Seq::empty());
    }
}

/// Durable semantic task state produced at a context rollover.
#[derive(Clone, Debug, PartialEq, Eq)]
pub struct ContextCheckpoint {
    pub task_id: TaskId,
    pub window: u32,
    pub objective: String,
    pub status: TaskStatus,
    pub acceptance_criteria: Vec<AcceptanceCriterion>,
    pub decisions: Vec<Decision>,
    pub completed: Vec<WorkItem>,
    pub pending: Vec<WorkItem>,
    pub blockers: Vec<Blocker>,
    pub important_findings: Vec<Finding>,
    pub failed_approaches: Vec<Failure>,
    pub changed_paths: Vec<String>,
    pub verification: Vec<VerificationSummary>,
    pub active_agents: Vec<AgentSummary>,
    pub active_processes: Vec<ProcessSummary>,
    pub next_actions: Vec<String>,
    pub current_revision: RevisionId,
    pub last_verified_revision: Option<RevisionId>,
}

/// One verification, reduced to what a later window must know about it.
#[derive(Clone, Debug, PartialEq, Eq)]
pub struct VerificationSummary {
    pub kind: String,
    pub ok: bool,
    pub revision: RevisionId,
    pub fresh: bool,
    pub note: Option<String>,
}

/// A delegated worker as seen from the parent across a rollover.
#[derive(Clone, Debug, PartialEq, Eq)]
pub struct AgentSummary {
    pub agent: AgentId,
    pub task: String,
    pub state: String,
    pub summary: Option<String>,
}

/// A background process as seen across a rollover.
#[derive(Clone, Debug, PartialEq, Eq)]
pub struct ProcessSummary {
    pub process: ProcessId,
    pub argv: Vec<String>,
    pub state: String,
    pub exit_code: Option<i64>,
}

/// A thing that is written as one line of a section.
pub trait Line {
    spec fn line(&self) -> Seq<char>;

    fn line_text(&self) -> (r: String)
        ensures
            r@ == self.line(),
    ;
}

/// `main`, then a dash and `extra` where there is one.
pub open spec fn dashed(main: Seq<char>, lead: Seq<char>, extra: Option<String>) -> Seq<char> {
    match extra {
        Some(value) => main + lead + value@,
        None => main,
    }
}

/// Appends `lead` and `extra` where there is one.
pub fn push_dashed(out: &mut String, lead: &str, extra: &Option<String>)
    ensures
        final(out)@ == dashed(old(out)@, lead@, *extra),
{
    match extra {
        Some(value) => {
            out.append(lead);
            out.append(value.as_str());
        },
        None => {},
    }
}

impl Line for String {
    open spec fn line(&self) -> Seq<char> {
        self@
    }

    fn line_text(&self) -> (r: String) {
        self.clone()
    }
}

impl Line for AcceptanceCriterion {
    open spec fn line(&self) -> Seq<char> {
        "["@ + (if self.met {
            "met"@
        } else {
            "unmet"@
        }) + "] "@ + self.description@
    }

    fn line_text(&self) -> (r: String) {
        let mut s = text("[");
        if self.met {
            s.append("met");
        } else {
            s.append("unmet");
        }
        s.append("] ");
        s.append(self.description.as_str());
        s
    }
}

impl Line for Decision {
    open spec fn line(&self) -> Seq<char> {
        dashed(self.decision@, " — "@, self.rationale)
    }

    fn line_text(&self) -> (r: String) {
        let mut s = self.decision.clone();
        push_dashed(&mut s, " — ", &self.rationale);
        s
    }
}

impl Line for WorkItem {
    open spec fn line(&self) -> Seq<char> {
        dashed(self.title@, " — "@, self.detail)
    }

    fn line_text(&self) -> (r: String) {
        let mut s = self.title.clone();
        push_dashed(&mut s, " — ", &self.detail);
        s
    }
}

impl Line for Blocker {
    open spec fn line(&self) -> Seq<char> {
        dashed(self.summary@, " — needs "@, self.needs)
    }

    fn line_text(&self) -> (r: String) {
        let mut s = self.summary.clone();
        push_dashed(&mut s, " — needs ", &self.needs);
        s
    }
}

impl Line for Finding {
    open spec fn line(&self) -> Seq<char> {
        if self.paths@.len() == 0 {
            self.summary@
        } else {
            self.summary@ + " ("@ + joined(views(self.paths@), ", "@) + ")"@
        }
    }

    fn line_text(&self) -> (r: String) {
        let mut s = self.summary.clone();
        if !self.paths.is_empty() {
            s.append(" (");
            s.append(join(&self.paths, ", ").as_str());
            s.append(")");
        }
        s
    }
}

impl Line for Failure {
    open spec fn line(&self) -> Seq<char> {
        self.approach@ + ": "@ + self.reason@
    }

    fn line_text(&self) -> (r: String) {
        let mut s = self.approach.clone();
        s.append(": ");
        s.append(self.reason.as_str());
        s
    }
}

impl Line for VerificationSummary {
    open spec fn line(&self) -> Seq<char> {
        dashed(
            self.kind@ + ": "@ + (if self.ok {
                "PASS"@
            } else {
                "FAIL"@
            }) + " @ "@ + self.revision.0@ + " — "@ + (if self.fresh {
                "fresh"@
            } else {
                "stale"@
            }),
            " — "@,
            self.note,
        )
    }

    fn line_text(&self) -> (r: String) {
        let mut s = self.kind.clone();
        s.append(": ");
        if self.ok {
            s.append("PASS");
        } else {
            s.append("FAIL");
        }
        s.append(" @ ");
        s.append(self.revision.0.as_str());
        s.append(" — ");
        if self.fresh {
            s.append("fresh");
        } else {
            s.append("stale");
        }
        push_dashed(&mut s, " — ", &self.note);
        s
    }
}

impl Line for AgentSummary {
    open spec fn line(&self) -> Seq<char> {
        dashed(
            "agent "@ + decimal(self.agent.0 as nat) + " ["@ + self.state@ + "] "@ + self.task@,
            " — "@,
            self.summary,
        )
    }

    fn line_text(&self) -> (r: String) {
        let mut s = text("agent ");
        s.append(decimal_text(self.agent.0).as_str());
        s.append(" [");
        s.append(self.state.as_str());
        s.append("] ");
        s.append(self.task.as_str());
        push_dashed(&mut s, " — ", &self.summary);
        s
    }
}

impl Line for ProcessSummary {
    open spec fn line(&self) -> Seq<char> {
        let main = "process "@ + decimal(self.process.0 as nat) + " ["@ + self.state@ + "] "@
            + joined(views(self.argv@), " "@);
        match self.exit_code {
            Some(code) => main + " exit "@ + signed_decimal(code as int),
            None => main,
        }
    }

    fn line_text(&self) -> (r: String) {
        let mut s = text("process ");
        s.append(decimal_text(self.process.0).as_str());
        s.append(" [");
        s.append(self.state.as_str());
        s.append("] ");
        s.append(join(&self.argv, " ").as_str());
        match self.exit_code {
            Some(code) => {
                s.append(" exit ");
                s.append(signed_text(code).as_str());
            },
            None => {},
        }
        s
    }
}

/// The lines of a list of things.
pub open spec fn lines_of<T: Line>(items: Seq<T>) -> Seq<Seq<char>> {
    items.map_values(|item: T| item.line())
}

/// A thing that can be copied.
pub trait Kept: Sized {
    /// Whether this is a copy of the other.
    spec fn keeps(self, from: Self) -> bool;

    fn copy(&self) -> (r: Self)
        ensures
            r.keeps(*self),
    ;
}

impl Kept for AcceptanceCriterion {
    open spec fn keeps(self, from: Self) -> bool {
        self == from
    }

    fn copy(&self) -> (r: Self) {
        AcceptanceCriterion {
            description: self.description.clone(),
            met: self.met,
            evidence_kind: copy_text(&self.evidence_kind),
        }
    }
}

impl Kept for Decision {
    open spec fn keeps(self, from: Self) -> bool {
        self == from
    }

    fn copy(&self) -> (r: Self) {
        Decision { decision: self.decision.clone(), rationale: copy_text(&self.rationale) }
    }
}

impl Kept for Blocker {
    open spec fn keeps(self, from: Self) -> bool {
        self == from
    }

    fn copy(&self) -> (r: Self) {
        Blocker { summary: self.summary.clone(), needs: copy_text(&self.needs) }
    }
}

impl Kept for Finding {
    open spec fn keeps(self, from: Self) -> bool {
        self.summary == from.summary && self.paths@ == from.paths@
    }

    fn copy(&self) -> (r: Self) {
        Finding { summary: self.summary.clone(), paths: copy_strings(&self.paths) }
    }
}

impl Kept for Failure {
    open spec fn keeps(self, from: Self) -> bool {
        self == from
    }

    fn copy(&self) -> (r: Self) {
        Failure { approach: self.approach.clone(), reason: self.reason.clone() }
    }
}

/// Whether a list is a copy of another, one by one.
pub open spec fn all_kept<T: Kept>(copy: Seq<T>, items: Seq<T>) -> bool {
    &&& copy.len() == items.len()
    &&& forall|i: int| 0 <= i < copy.len() ==> (#[trigger] copy[i]).keeps(items[i])
}

/// A copy of things, one by one.
pub fn copy_kept<T: Kept>(items: &Vec<T>) -> (r: Vec<T>)
    ensures
        all_kept(r@, items@),
{
    let mut out: Vec<T> = Vec::new();
    let mut i: usize = 0;
    while i < items.len()
        invariant
            i <= items.len(),
            out@.len() == i,
            forall|j: int| 0 <= j < i ==> (#[trigger] out@[j]).keeps(items@[j]),
        decreases items.len() - i,
    {
        out.push(items[i].copy());
        i = i + 1;
    }
    out
}

/// A copy of work items.
pub fn copy_work(items: &Vec<WorkItem>) -> (r: Vec<WorkItem>)
    ensures
        r@ == items@,
{
    let mut out: Vec<WorkItem> = Vec::new();
    let mut i: usize = 0;
    while i < items.len()
        invariant
            i <= items.len(),
            out@.len() == i,
            forall|j: int| 0 <= j < i ==> #[trigger] out@[j] == items@[j],
        decreases items.len() - i,
    {
        out.push(
            WorkItem { title: items[i].title.clone(), detail: copy_text(&items[i].detail) },
        );
        i = i + 1;
    }
    proof {
        assert(out@ =~= items@);
    }
    out
}

/// The lines one below the other, each led by a dash.
pub open spec fn bullets(lines: Seq<Seq<char>>) -> Seq<char>
    decreases lines.len(),
{
    if lines.len() == 0 {
        Seq::empty()
    } else {
        bullets(lines.drop_last()) + "\n- "@ + lines.last()
    }
}

/// A titled section; nothing at all where there are no lines.
pub open spec fn section_text(title: Seq<char>, lines: Seq<Seq<char>>) -> Seq<char> {
    if lines.len() == 0 {
        Seq::empty()
    } else {
        "\n\n"@ + title + ":"@ + bullets(lines)
    }
}

/// Appends a titled section.
pub fn section<T: Line>(out: &mut String, title: &str, items: &Vec<T>)
    ensures
        final(out)@ == old(out)@ + section_text(title@, lines_of(items@)),
{
    let ghost before = out@;
    let ghost lines = lines_of(items@);
    if items.is_empty() {
        proof {
            assert(before + section_text(title@, lines) =~= before);
        }
        return ;
    }
    let mut part = text("\n\n");
    part.append(title);
    part.append(":");
    let ghost lead = part@;
    proof {
        assert(lead + bullets(lines.take(0)) =~= lead);
    }
    let mut i: usize = 0;
    while i < items.len()
        invariant
            i <= items.len(),
            lines == lines_of(items@),
            part@ == lead + bullets(lines.take(i as int)),
        decreases items.len() - i,
    {
        part.append("\n- ");
        part.append(items[i].line_text().as_str());
        proof {
            let next = lines.take(i + 1);
            assert(next.drop_last() =~= lines.take(i as int));
            assert(next.last() == items@[i as int].line());
            assert(part@ =~= lead + bullets(next));
        }
        i = i + 1;
    }
    proof {
        assert(lines.take(i as int) =~= lines);
    }
    out.append(part.as_str());
}

/// The titles of a list of work items.
pub open spec fn titles_of(items: Seq<WorkItem>) -> Seq<Seq<char>> {
    items.map_values(|item: WorkItem| item.title@)
}

/// The titles of a list of work items.
pub fn titles(items: &Vec<WorkItem>) -> (r: Vec<String>)
    ensures
        views(r@) == titles_of(items@),
{
    let mut out: Vec<String> = Vec::new();
    let mut i: usize = 0;
    let ghost all = titles_of(items@);
    while i < items.len()
        invariant
            i <= items.len(),
            all == titles_of(items@),
            views(out@) == all.take(i as int),
        decreases items.len() - i,
    {
        let ghost old_out = out@;
        out.push(items[i].title.clone());
        proof {
            assert(views(out@) =~= views(old_out).push(all[i as int]));
            assert(all.take(i + 1) =~= all.take(i as int).push(all[i as int]));
        }
        i = i + 1;
    }
    proof {
        assert(all.take(i as int) =~= all);
    }
    out
}

impl ContextCheckpoint {
    /// The lines above the sections.
    pub open spec fn heading(self) -> Seq<char> {
        "[task state after context window "@ + decimal(self.window as nat) + "]\nobjective: "@
            + self.objective@ + "\nstatus: "@ + self.status.name() + "\ncurrent revision: "@
            + self.current_revision.0@ + "\nlast verified revision: "@ + (
        match self.last_verified_revision {
            Some(revision) => revision.0@,
            None => "none"@,
        })
    }

    /// The outline that a fresh window receives: the heading, then each list
    /// that holds anything as a titled section.
    pub open spec fn rendered(self) -> Seq<char> {
        self.heading() + section_text("acceptance criteria"@, lines_of(self.acceptance_criteria@))
            + section_text("decisions"@, lines_of(self.decisions@)) + section_text(
            "completed"@,
            titles_of(self.completed@),
        ) + section_text("pending"@, lines_of(self.pending@)) + section_text(
            "blockers"@,
            lines_of(self.blockers@),
        ) + section_text("findings"@, lines_of(self.important_findings@)) + section_text(
            "failed approaches (do not retry)"@,
            lines_of(self.failed_approaches@),
        ) + section_text("changed paths"@, views(self.changed_paths@)) + section_text(
            "verification"@,
            lines_of(self.verification@),
        ) + section_text("workers"@, lines_of(self.active_agents@)) + section_text(
            "processes"@,
            lines_of(self.active_processes@),
        ) + section_text("next actions"@, views(self.next_actions@))
    }

    /// Renders the checkpoint as the context a fresh window receives.
    pub fn render(&self) -> (r: String)
        ensures
            r@ == self.rendered(),
    {
        let mut out = text("[task state after context window ");
        out.append(decimal_text(self.window as u64).as_str());
        out.append("]\nobjective: ");
        out.append(self.objective.as_str());
        out.append("\nstatus: ");
        out.append(self.status.label());
        out.append("\ncurrent revision: ");
        out.append(self.current_revision.0.as_str());
        out.append("\nlast verified revision: ");
        match &self.last_verified_revision {
            Some(revision) => out.append(revision.0.as_str()),
            None => out.append("none"),
        }
        section(&mut out, "acceptance criteria", &self.acceptance_criteria);
        section(&mut out, "decisions", &self.decisions);
        let completed = titles(&self.completed);
        section(&mut out, "completed", &completed);
        section(&mut out, "pending", &self.pending);
        section(&mut out, "blockers", &self.blockers);
        section(&mut out, "findings", &self.important_findings);
        section(&mut out, "failed approaches (do not retry)", &self.failed_approaches);
        section(&mut out, "changed paths", &self.changed_paths);
        section(&mut out, "verification", &self.verification);
        section(&mut out, "workers", &self.active_agents);
        section(&mut out, "processes", &self.active_processes);
        section(&mut out, "next actions", &self.next_actions);
        proof {
            assert(lines_of(completed@) =~= views(completed@));
            assert(lines_of(self.changed_paths@) =~= views(self.changed_paths@));
            assert(lines_of(self.next_actions@) =~= views(self.next_actions@));
        }
        out
    }
}

pub proof fn lemma_contains_in_sum(a: Seq<char>, b: Seq<char>, pat: Seq<char>)
    ensures
        contains(a, pat) || contains(b, pat) ==> contains(a + b, pat),
{
    if contains(a, pat) {
        let i = choose|i: int| occurs_at(a, pat, i);
        assert((a + b).subrange(i, i + pat.len()) =~= a.subrange(i, i + pat.len()));
        assert(occurs_at(a + b, pat, i));
    }
    if contains(b, pat) {
        let i = choose|i: int| occurs_at(b, pat, i);
        assert((a + b).subrange(a.len() + i, a.len() + i + pat.len()) =~= b.subrange(
            i,
            i + pat.len(),
        ));
        assert(occurs_at(a + b, pat, a.len() + i));
    }
}

pub proof fn lemma_bullets_contain(lines: Seq<Seq<char>>, i: int)
    requires
        0 <= i < lines.len(),
    ensures
        contains(bullets(lines), lines[i]),
    decreases lines.len(),
{
    let init = bullets(lines.drop_last()) + "\n- "@;
    if i == lines.len() - 1 {
        let last = lines.last();
        assert(last.subrange(0, last.len() as int) =~= last);
        assert(occurs_at(last, last, 0));
        lemma_contains_in_sum(init, last, last);
    } else {
        lemma_bullets_contain(lines.drop_last(), i);
        assert(lines.drop_last()[i] == lines[i]);
        lemma_contains_in_sum(bullets(lines.drop_last()), "\n- "@, lines[i]);
        lemma_contains_in_sum(init, lines.last(), lines[i]);
    }
}

pub proof fn lemma_section_contains(title: Seq<char>, lines: Seq<Seq<char>>, pat: Seq<char>)
    requires
        lines.contains(pat),
    ensures
        contains(section_text(title, lines), pat),
{
    let i = choose|i: int| 0 <= i < lines.len() && lines[i] == pat;
    lemma_bullets_contain(lines, i);
    lemma_contains_in_sum("\n\n"@ + title + ":"@, bullets(lines), pat);
}

impl ContextCheckpoint {
    /// Whether a text is a line of what was recorded: a criterion, a decision, a
    /// completed or pending item, a blocker, a finding, a failed approach, a
    /// changed path, a verification, a worker, a process or a next action.
    pub open spec fn records(self, line: Seq<char>) -> bool {
        ||| lines_of(self.acceptance_criteria@).contains(line)
        ||| lines_of(self.decisions@).contains(line)
        ||| titles_of(self.completed@).contains(line)
        ||| lines_of(self.pending@).contains(line)
        ||| lines_of(self.blockers@).contains(line)
        ||| lines_of(self.important_findings@).contains(line)
        ||| lines_of(self.failed_approaches@).contains(line)
        ||| views(self.changed_paths@).contains(line)
        ||| lines_of(self.verification@).contains(line)
        ||| lines_of(self.active_agents@).contains(line)
        ||| lines_of(self.active_processes@).contains(line)
        ||| views(self.next_actions@).contains(line)
    }
}

/// Everything that was recorded stands in the outline that a fresh window
/// receives: what the model records survives a rollover.
pub proof fn law_checkpoint_shows_what_is_recorded(c: ContextCheckpoint, line: Seq<char>)
    requires
        c.records(line),
    ensures
        contains(c.rendered(), line),
{
    let s1 = section_text("acceptance criteria"@, lines_of(c.acceptance_criteria@));
    let s2 = section_text("decisions"@, lines_of(c.decisions@));
    let s3 = section_text("completed"@, titles_of(c.completed@));
    let s4 = section_text("pending"@, lines_of(c.pending@));
    let s5 = section_text("blockers"@, lines_of(c.blockers@));
    let s6 = section_text("findings"@, lines_of(c.important_findings@));
    let s7 = section_text("failed approaches (do not retry)"@, lines_of(c.failed_approaches@));
    let s8 = section_text("changed paths"@, views(c.changed_paths@));
    let s9 = section_text("verification"@, lines_of(c.verification@));
    let s10 = section_text("workers"@, lines_of(c.active_agents@));
    let s11 = section_text("processes"@, lines_of(c.active_processes@));
    let s12 = section_text("next actions"@, views(c.next_actions@));
    let t0 = c.heading();
    let t1 = t0 + s1;
    let t2 = t1 + s2;
    let t3 = t2 + s3;
    let t4 = t3 + s4;
    let t5 = t4 + s5;
    let t6 = t5 + s6;
    let t7 = t6 + s7;
    let t8 = t7 + s8;
    let t9 = t8 + s9;
    let t10 = t9 + s10;
    let t11 = t10 + s11;
    lemma_contains_in_sum(t0, s1, line);
    lemma_contains_in_sum(t1, s2, line);
    lemma_contains_in_sum(t2, s3, line);
    lemma_contains_in_sum(t3, s4, line);
    lemma_contains_in_sum(t4, s5, line);
    lemma_contains_in_sum(t5, s6, line);
    lemma_contains_in_sum(t6, s7, line);
    lemma_contains_in_sum(t7, s8, line);
    lemma_contains_in_sum(t8, s9, line);
    lemma_contains_in_sum(t9, s10, line);
    lemma_contains_in_sum(t10, s11, line);
    lemma_contains_in_sum(t11, s12, line);
    if lines_of(c.acceptance_criteria@).contains(line) {
        lemma_section_contains("acceptance criteria"@, lines_of(c.acceptance_criteria@), line);
    } else if lines_of(c.decisions@).contains(line) {
        lemma_section_contains("decisions"@, lines_of(c.decisions@), line);
    } else if titles_of(c.completed@).contains(line) {
        lemma_section_contains("completed"@, titles_of(c.completed@), line);
    } else if lines_of(c.pending@).contains(line) {
        lemma_section_contains("pending"@, lines_of(c.pending@), line);
    } else if lines_of(c.blockers@).contains(line) {
        lemma_section_contains("blockers"@, lines_of(c.blockers@), line);
    } else if lines_of(c.important_findings@).contains(line) {
        lemma_section_contains("findings"@, lines_of(c.important_findings@), line);
    } else if lines_of(c.failed_approaches@).contains(line) {
        lemma_section_contains(
            "failed approaches (do not retry)"@,
            lines_of(c.failed_approaches@),
            line,
        );
    } else if views(c.changed_paths@).contains(line) {
        lemma_section_contains("changed paths"@, views(c.changed_paths@), line);
    } else if lines_of(c.verification@).contains(line) {
        lemma_section_contains("verification"@, lines_of(c.verification@), line);
    } else if lines_of(c.active_agents@).contains(line) {
        lemma_section_contains("workers"@, lines_of(c.active_agents@), line);
    } else if lines_of(c.active_processes@).contains(line) {
        lemma_section_contains("processes"@, lines_of(c.active_processes@), line);
    } else {
        lemma_section_contains("next actions"@, views(c.next_actions@), line);
    }
}

} // verus!
