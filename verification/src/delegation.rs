//! Delegation contract: worker handles, access modes, and integration.
//!
//! `agent_spawn` returns at once and the root agent keeps working; the other
//! calls operate on the handle. The synchronous `delegate` helpers are spawn,
//! then join, over the same host.
use vstd::prelude::*;
use vstd::string::StringExecFns;
use crate::goal::{FinishRequest, FinishVerdict, GoalUpdate};
use crate::hostline::{DelegationCall, HostLine};
use crate::identity::{AgentId, IsolatedWorkspaceId, ProcessId, RevisionId, TaskId};
use crate::json::Json;
use crate::process::{ProcessSnapshot, ProcessSpec, ProcessStream, ProcessTail};
use crate::ptc::runtime::PtcExecution;
use crate::session::{copy_evidence, same_evidence_list, EvidenceRecord};
use crate::text::{same, text};

verus! {

/// What a delegated worker may do to the workspace.
#[derive(Clone, Copy, Debug, PartialEq, Eq, Structural)]
pub enum AgentAccess {
    /// Runs in the parent workspace with writes and subprocesses disabled.
    Read,
    /// Runs in a private workspace forked at the parent revision.
    IsolatedWrite,
}

impl AgentAccess {
    /// The name of the access mode.
    pub open spec fn name(self) -> Seq<char> {
        match self {
            AgentAccess::Read => "read"@,
            AgentAccess::IsolatedWrite => "isolated-write"@,
        }
    }

    /// The name of the access mode.
    pub fn label(self) -> (r: &'static str)
        ensures
            r@ == self.name(),
    {
        match self {
            AgentAccess::Read => "read",
            AgentAccess::IsolatedWrite => "isolated-write",
        }
    }
}

/// Lifecycle of a delegated worker.
#[derive(Clone, Copy, Debug, PartialEq, Eq, Structural)]
pub enum AgentState {
    Queued,
    Running,
    Waiting,
    Completed,
    Failed,
    Cancelled,
}

impl AgentState {
    /// Whether the worker has settled.
    pub open spec fn terminal(self) -> bool {
        self is Completed || self is Failed || self is Cancelled
    }

    /// The name of the state.
    pub open spec fn name(self) -> Seq<char> {
        match self {
            AgentState::Queued => "queued"@,
            AgentState::Running => "running"@,
            AgentState::Waiting => "waiting"@,
            AgentState::Completed => "completed"@,
            AgentState::Failed => "failed"@,
            AgentState::Cancelled => "cancelled"@,
        }
    }

    /// Whether the worker has settled. A parent may only finish once every
    /// worker is terminal.
    pub fn is_terminal(self) -> (r: bool)
        ensures
            r == self.terminal(),
    {
        match self {
            AgentState::Completed | AgentState::Failed | AgentState::Cancelled => true,
            _ => false,
        }
    }

    /// The name of the state.
    pub fn label(self) -> (r: &'static str)
        ensures
            r@ == self.name(),
    {
        match self {
            AgentState::Queued => "queued",
            AgentState::Running => "running",
            AgentState::Waiting => "waiting",
            AgentState::Completed => "completed",
            AgentState::Failed => "failed",
            AgentState::Cancelled => "cancelled",
        }
    }
}

/// A declarative worker profile: a name that selects access, a turn budget and
/// an extra system instruction.
#[derive(Clone, Copy, Debug, PartialEq, Eq)]
pub struct AgentProfile {
    pub name: &'static str,
    pub access: AgentAccess,
    pub max_turns_per_window: usize,
    pub instruction: &'static str,
}

/// Whether a profile of this name is built in.
pub open spec fn known_profile(name: Seq<char>) -> bool {
    name == "explore"@ || name == "implement"@ || name == "review"@ || name == "test"@
}

/// The access mode of a built-in profile.
pub open spec fn profile_access(name: Seq<char>) -> AgentAccess {
    if name == "explore"@ {
        AgentAccess::Read
    } else if name == "implement"@ {
        AgentAccess::IsolatedWrite
    } else if name == "review"@ {
        AgentAccess::Read
    } else {
        AgentAccess::IsolatedWrite
    }
}

/// The turn budget of a built-in profile.
pub open spec fn profile_turns(name: Seq<char>) -> nat {
    if name == "explore"@ {
        12
    } else if name == "implement"@ {
        24
    } else if name == "review"@ {
        12
    } else {
        16
    }
}

/// The instruction of a built-in profile.
pub open spec fn profile_instruction(name: Seq<char>) -> Seq<char> {
    if name == "explore"@ {
        "Investigate and report. Do not attempt to change the workspace."@
    } else if name == "implement"@ {
        "Implement the objective in your isolated workspace and verify it there."@
    } else if name == "review"@ {
        "Review for correctness and risk. Report findings with exact paths."@
    } else {
        "Write and run tests in your isolated workspace; report failures precisely."@
    }
}

/// Whether `p` is the built-in profile called `name`.
pub open spec fn is_profile(p: AgentProfile, name: Seq<char>) -> bool {
    &&& known_profile(name)
    &&& p.name@ == name
    &&& p.access == profile_access(name)
    &&& p.max_turns_per_window == profile_turns(name)
    &&& p.instruction@ == profile_instruction(name)
}

/// The built-in profile of a name. An unknown name has none: there is no
/// silent fallback.
pub fn profile(name: &str) -> (r: Option<AgentProfile>)
    ensures
        r is Some <==> known_profile(name@),
        r matches Some(p) ==> is_profile(p, name@),
{
    if same(name, "explore") {
        Some(
            AgentProfile {
                name: "explore",
                access: AgentAccess::Read,
                max_turns_per_window: 12,
                instruction: "Investigate and report. Do not attempt to change the workspace.",
            },
        )
    } else if same(name, "implement") {
        Some(
            AgentProfile {
                name: "implement",
                access: AgentAccess::IsolatedWrite,
                max_turns_per_window: 24,
                instruction: "Implement the objective in your isolated workspace and verify it there.",
            },
        )
    } else if same(name, "review") {
        Some(
            AgentProfile {
                name: "review",
                access: AgentAccess::Read,
                max_turns_per_window: 12,
                instruction: "Review for correctness and risk. Report findings with exact paths.",
            },
        )
    } else if same(name, "test") {
        Some(
            AgentProfile {
                name: "test",
                access: AgentAccess::IsolatedWrite,
                max_turns_per_window: 16,
                instruction: "Write and run tests in your isolated workspace; report failures precisely.",
            },
        )
    } else {
        None
    }
}

/// Options for spawning a worker.
#[derive(Clone, Debug, PartialEq, Eq)]
pub struct AgentSpawnOptions {
    pub task: String,
    /// Optional when `profile` supplies the access mode.
    pub access: Option<AgentAccess>,
    pub profile: Option<String>,
    pub context: Json,
}

/// The refusal of an unknown profile name.
pub open spec fn unknown_profile_message(name: Seq<char>) -> Seq<char> {
    "unknown agent profile '"@ + name
        + "'; available: explore, implement, review, test"@
}

impl AgentSpawnOptions {
    /// Whether the options name a profile that is not built in.
    pub open spec fn names_unknown_profile(self) -> bool {
        match self.profile {
            Some(name) => !known_profile(name@),
            None => false,
        }
    }

    /// The effective access mode: the explicit one, else that of the profile.
    pub open spec fn effective_access(self) -> Option<AgentAccess> {
        match (self.access, self.profile) {
            (Some(access), _) => Some(access),
            (None, Some(name)) => Some(profile_access(name@)),
            (None, None) => None,
        }
    }

    /// Resolves the effective access mode and profile. An explicit access wins
    /// over that of the profile; an unknown profile is an error, and so is the
    /// absence of both.
    pub fn resolve(&self) -> (r: Result<(AgentAccess, Option<AgentProfile>), String>)
        ensures
            self.names_unknown_profile() ==> (r matches Err(e) && e@ == unknown_profile_message(
                self.profile->0@,
            )),
            !self.names_unknown_profile() && self.effective_access() is None ==> (r matches Err(e)
                && e@ == "agent_spawn: access or profile is required"@),
            !self.names_unknown_profile() && self.effective_access() is Some ==> (r matches Ok(v)
                && Some(v.0) == self.effective_access() && match self.profile {
                Some(name) => v.1 matches Some(p) && is_profile(p, name@),
                None => v.1 is None,
            }),
    {
        let resolved: Option<AgentProfile> = match &self.profile {
            Some(name) => {
                match profile(name.as_str()) {
                    Some(found) => Some(found),
                    None => {
                        let mut message = text("unknown agent profile '");
                        message.append(name.as_str());
                        message.append("'; available: explore, implement, review, test");
                        return Err(message);
                    },
                }
            },
            None => None,
        };
        match self.access {
            Some(access) => Ok((access, resolved)),
            None => match resolved {
                Some(found) => Ok((found.access, resolved)),
                None => Err(text("agent_spawn: access or profile is required")),
            },
        }
    }
}

/// Bounds on the workers of a task.
#[derive(Clone, Debug, PartialEq, Eq)]
pub struct DelegationBudget {
    pub max_children: usize,
    pub max_parallel_children: usize,
    /// Model turns a worker may spend in one context window.
    pub max_child_turns: usize,
    /// Context windows a worker may use before it is failed as non-converging.
    pub max_child_windows: u32,
    pub max_findings_bytes: usize,
}

impl Default for DelegationBudget {
    fn default() -> (r: DelegationBudget)
        ensures
            r.max_children == 8,
            r.max_parallel_children == 4,
            r.max_child_turns == 16,
            r.max_child_windows == 4,
            r.max_findings_bytes == 16384,
    {
        DelegationBudget {
            max_children: 8,
            max_parallel_children: 4,
            max_child_turns: 16,
            max_child_windows: 4,
            max_findings_bytes: 16384,
        }
    }
}

/// What a worker returns to its parent. Transcripts never cross back.
#[derive(Debug, PartialEq, Eq)]
pub struct DelegateResult {
    pub task_id: TaskId,
    pub agent: AgentId,
    pub ok: bool,
    pub summary: String,
    pub base_revision: RevisionId,
    pub final_revision: RevisionId,
    pub changed: bool,
    pub workspace: Option<IsolatedWorkspaceId>,
    pub evidence: Vec<EvidenceRecord>,
    pub findings: Json,
}

/// Whether two results say the same.
pub open spec fn same_result(a: DelegateResult, b: DelegateResult) -> bool {
    &&& a.task_id == b.task_id
    &&& a.agent == b.agent
    &&& a.ok == b.ok
    &&& a.summary == b.summary
    &&& a.base_revision == b.base_revision
    &&& a.final_revision == b.final_revision
    &&& a.changed == b.changed
    &&& a.workspace == b.workspace
    &&& same_evidence_list(a.evidence@, b.evidence@)
    &&& a.findings == b.findings
}

impl Clone for DelegateResult {
    fn clone(&self) -> (r: Self)
        ensures
            same_result(r, *self),
    {
        DelegateResult {
            task_id: self.task_id,
            agent: self.agent,
            ok: self.ok,
            summary: self.summary.clone(),
            base_revision: self.base_revision.clone(),
            final_revision: self.final_revision.clone(),
            changed: self.changed,
            workspace: self.workspace,
            evidence: copy_evidence(&self.evidence),
            findings: self.findings.clone(),
        }
    }
}

/// Whether two optional results say the same.
pub open spec fn same_answer(a: Option<DelegateResult>, b: Option<DelegateResult>) -> bool {
    match (a, b) {
        (Some(x), Some(y)) => same_result(x, y),
        (None, None) => true,
        _ => false,
    }
}

/// A copy of an optional result.
pub fn copy_answer(r: &Option<DelegateResult>) -> (c: Option<DelegateResult>)
    ensures
        same_answer(c, *r),
{
    match r {
        Some(x) => Some(x.clone()),
        None => None,
    }
}

/// Whether `r` is the result of a worker that failed with `summary` and changed
/// nothing.
pub open spec fn is_failure(
    r: DelegateResult,
    task_id: TaskId,
    agent: AgentId,
    revision: RevisionId,
    summary: Seq<char>,
) -> bool {
    &&& r.task_id == task_id
    &&& r.agent == agent
    &&& !r.ok
    &&& r.summary@ == summary
    &&& r.base_revision == revision
    &&& r.final_revision == revision
    &&& !r.changed
    &&& r.workspace is None
    &&& r.evidence@.len() == 0
    &&& r.findings.text@ == "null"@
}

impl DelegateResult {
    /// The result of a worker that failed and changed nothing.
    pub fn failure(
        task_id: TaskId,
        agent: AgentId,
        revision: RevisionId,
        summary: String,
    ) -> (r: DelegateResult)
        ensures
            is_failure(r, task_id, agent, revision, summary@),
    {
        DelegateResult {
            task_id,
            agent,
            ok: false,
            summary,
            base_revision: revision.clone(),
            final_revision: revision,
            changed: false,
            workspace: None,
            evidence: Vec::new(),
            findings: Json::null(),
        }
    }
}

/// Non-blocking status of a worker.
#[derive(Clone, Debug, PartialEq, Eq)]
pub struct AgentStatus {
    pub agent: AgentId,
    pub task_id: TaskId,
    pub state: AgentState,
    pub objective: String,
    pub access: AgentAccess,
    pub profile: Option<String>,
    pub done: bool,
    pub window: u32,
    pub turns_in_window: usize,
    /// Present once the worker settled.
    pub result: Option<DelegateResult>,
    pub pending: Vec<String>,
    pub next_actions: Vec<String>,
    pub current_revision: Option<RevisionId>,
}

/// What an integration request is answered.
#[derive(Clone, Debug, PartialEq, Eq)]
pub struct IntegrationResponse {
    pub ok: bool,
    pub conflict: bool,
    pub previous_revision: Option<RevisionId>,
    pub parent_revision: Option<RevisionId>,
    pub child_base: Option<RevisionId>,
    pub parent_current: Option<RevisionId>,
    pub paths: Vec<String>,
    pub error: Option<String>,
    pub requires_reverification: bool,
}

impl IntegrationResponse {
    /// A refusal: nothing was applied and nothing conflicts.
    pub fn error(message: String) -> (r: IntegrationResponse)
        ensures
            !r.ok,
            !r.conflict,
            r.previous_revision is None,
            r.parent_revision is None,
            r.child_base is None,
            r.parent_current is None,
            r.paths@.len() == 0,
            r.error == Some(message),
            !r.requires_reverification,
    {
        IntegrationResponse {
            ok: false,
            conflict: false,
            previous_revision: None,
            parent_revision: None,
            child_base: None,
            parent_current: None,
            paths: Vec::new(),
            error: Some(message),
            requires_reverification: false,
        }
    }
}

/// Host services a PTC program may reach for orchestration.
///
/// `may_spawn` and `may_join` relate a request to the answers the host may give;
/// an implementation is free to choose them, and one that does not promises
/// nothing.
pub trait DelegationHost: Sized {
    /// Whether the host may answer a spawn request with `answer`.
    open spec fn may_spawn(
        &self,
        parent: PtcExecution,
        revision: RevisionId,
        options: AgentSpawnOptions,
        answer: Result<AgentStatus, String>,
    ) -> bool {
        true
    }

    /// Whether the host may answer a join request with `answer`.
    open spec fn may_join(&self, agent: AgentId, answer: Result<DelegateResult, String>) -> bool {
        true
    }

    /// Starts a worker and returns immediately.
    fn agent_spawn(
        &self,
        parent: &PtcExecution,
        revision: &RevisionId,
        options: AgentSpawnOptions,
    ) -> (r: Result<AgentStatus, String>)
        ensures
            self.may_spawn(*parent, *revision, options, r),
    ;

    /// Abandons an isolated worker's delta explicitly.
    fn discard(
        &self,
        parent: &PtcExecution,
        workspace: IsolatedWorkspaceId,
        reason: String,
    ) -> Result<Json, String>;

    fn agent_poll(&self, agent: AgentId) -> Result<AgentStatus, String>;

    /// Blocks the calling PTC program until the worker settles.
    fn agent_join(&self, agent: AgentId) -> (r: Result<DelegateResult, String>)
        ensures
            self.may_join(agent, r),
    ;

    fn agent_cancel(&self, agent: AgentId) -> Result<AgentStatus, String>;

    fn agent_send(&self, agent: AgentId, message: String) -> Result<AgentStatus, String>;

    fn agent_list(&self) -> Vec<AgentStatus>;

    fn integrate(
        &self,
        parent: &PtcExecution,
        revision: &RevisionId,
        workspace: IsolatedWorkspaceId,
    ) -> IntegrationResponse;

    /// Records model-supplied goal state for the calling task.
    fn goal_update(&self, parent: &PtcExecution, update: GoalUpdate) -> Result<Json, String>;

    /// Requests explicit task completion; refusal is a value, not an error.
    fn finish(&self, parent: &PtcExecution, request: FinishRequest) -> Result<
        FinishVerdict,
        String,
    >;

    fn process_spawn(&self, parent: &PtcExecution, spec: ProcessSpec) -> Result<
        ProcessSnapshot,
        String,
    >;

    fn process_poll(&self, process: ProcessId) -> Result<ProcessSnapshot, String>;

    fn process_tail(&self, process: ProcessId, stream: ProcessStream, lines: usize) -> Result<
        ProcessTail,
        String,
    >;

    fn process_wait(&self, process: ProcessId, timeout_ms: Option<u64>) -> Result<
        ProcessSnapshot,
        String,
    >;

    fn process_kill(&self, process: ProcessId) -> Result<ProcessSnapshot, String>;

    fn process_write(&self, process: ProcessId, data: &str) -> Result<Json, String>;

    fn process_list(&self) -> Vec<ProcessSnapshot>;
}

/// What a batch reports for a worker that did not start: a failure of no task
/// and no agent.
pub fn unspawned_result(error: String, revision: &RevisionId) -> (r: DelegateResult)
    ensures
        is_failure(r, TaskId(0), AgentId(0), *revision, error@),
{
    DelegateResult::failure(TaskId(0), AgentId(0), revision.clone(), error)
}

/// What a batch reports for a started worker: its own result, else a failure
/// that names the worker.
pub fn joined_result(
    task_id: TaskId,
    agent: AgentId,
    answer: Result<DelegateResult, String>,
    revision: &RevisionId,
) -> (r: DelegateResult)
    ensures
        match answer {
            Ok(result) => r == result,
            Err(error) => is_failure(r, task_id, agent, *revision, error@),
        },
{
    match answer {
        Ok(result) => result,
        Err(error) => DelegateResult::failure(task_id, agent, revision.clone(), error),
    }
}

/// Whether `r` is what a batch reports for a request whose spawn was answered with
/// `spawned` and, where that started a worker, whose join was answered with
/// `joined`.
pub open spec fn reports(
    spawned: Result<AgentStatus, String>,
    joined: Result<DelegateResult, String>,
    revision: RevisionId,
    r: DelegateResult,
) -> bool {
    match (spawned, joined) {
        (Ok(_), Ok(result)) => r == result,
        (Ok(status), Err(error)) => is_failure(
            r,
            status.task_id,
            status.agent,
            revision,
            error@,
        ),
        (Err(error), _) => is_failure(r, TaskId(0), AgentId(0), revision, error@),
    }
}

/// Whether `r` is what a delegation comes to, and `calls` what it asks of the
/// host: one spawn, and, where that started a worker, one join of it. The error
/// of either step is the answer as it is.
pub open spec fn delegated<H: DelegationHost>(
    host: H,
    parent: PtcExecution,
    revision: RevisionId,
    options: AgentSpawnOptions,
    calls: Seq<DelegationCall>,
    r: Result<DelegateResult, String>,
) -> bool {
    exists|spawned: Result<AgentStatus, String>|
        #[trigger] host.may_spawn(parent, revision, options, spawned) && {
            let spawn = DelegationCall::Spawn { parent, revision, options, answer: spawned };
            match spawned {
                Ok(status) => {
                    &&& host.may_join(status.agent, r)
                    &&& calls == seq![spawn, DelegationCall::Join { agent: status.agent, answer: r }]
                },
                Err(error) => {
                    &&& r == Err::<DelegateResult, String>(error)
                    &&& calls == seq![spawn]
                },
            }
        }
}

/// Synchronous delegation: spawn, then join. The error of either step is
/// returned as it is.
pub fn delegate_sync<H: DelegationHost>(
    line: &mut HostLine<'_, H>,
    parent: &PtcExecution,
    revision: &RevisionId,
    options: AgentSpawnOptions,
) -> (r: Result<DelegateResult, String>)
    ensures
        final(line).host() == old(line).host(),
        exists|calls: Seq<DelegationCall>|
            #![trigger old(line).history() + calls]
            final(line).history() == old(line).history() + calls && delegated(
                old(line).host(),
                *parent,
                *revision,
                options,
                calls,
                r,
            ),
{
    let ghost before = line.history();
    match line.spawn(parent, revision, options) {
        Ok(status) => {
            let ghost spawn = DelegationCall::Spawn {
                parent: *parent,
                revision: *revision,
                options,
                answer: Ok(status),
            };
            let r = line.join(status.agent);
            proof {
                let calls = seq![spawn, DelegationCall::Join { agent: status.agent, answer: r }];
                assert(line.history() =~= before + calls);
            }
            r
        },
        Err(error) => {
            proof {
                let calls = seq![
                    DelegationCall::Spawn {
                        parent: *parent,
                        revision: *revision,
                        options,
                        answer: Err(error),
                    },
                ];
                assert(line.history() =~= before + calls);
            }
            Err(error)
        },
    }
}

/// One spawn for each request, in order, with its answer.
pub open spec fn spawn_calls(
    parent: PtcExecution,
    revision: RevisionId,
    options: Seq<AgentSpawnOptions>,
    spawned: Seq<Result<AgentStatus, String>>,
) -> Seq<DelegationCall> {
    Seq::new(
        spawned.len(),
        |i: int|
            DelegationCall::Spawn { parent, revision, options: options[i], answer: spawned[i] },
    )
}

/// One join for each worker that started, in order, with its answer.
pub open spec fn join_calls(
    spawned: Seq<Result<AgentStatus, String>>,
    joined: Seq<Result<DelegateResult, String>>,
) -> Seq<DelegationCall>
    decreases spawned.len(),
{
    if spawned.len() == 0 {
        Seq::empty()
    } else {
        let init = join_calls(spawned.drop_last(), joined.drop_last());
        match spawned.last() {
            Ok(status) => init.push(
                DelegationCall::Join { agent: status.agent, answer: joined.last() },
            ),
            Err(_) => init,
        }
    }
}

/// Whether the host may answer the spawn and the join of each request so.
pub open spec fn may_answer<H: DelegationHost>(
    host: H,
    parent: PtcExecution,
    revision: RevisionId,
    options: Seq<AgentSpawnOptions>,
    spawned: Seq<Result<AgentStatus, String>>,
    joined: Seq<Result<DelegateResult, String>>,
) -> bool {
    &&& spawned.len() == options.len()
    &&& joined.len() == options.len()
    &&& forall|i: int|
        0 <= i < options.len() ==> #[trigger] host.may_spawn(
            parent,
            revision,
            options[i],
            spawned[i],
        )
    &&& forall|i: int|
        0 <= i < options.len() ==> ((#[trigger] spawned[i]) matches Ok(status) ==> host.may_join(
            status.agent,
            joined[i],
        ))
}

/// Whether `r` is what a batch of delegations comes to, and `calls` what it asks
/// of the host: every request is spawned, once and in order, before the first
/// join; then every worker that started is joined, once and in order. There is
/// one result per request, in the order of the requests.
pub open spec fn batch_delegated<H: DelegationHost>(
    host: H,
    parent: PtcExecution,
    revision: RevisionId,
    options: Seq<AgentSpawnOptions>,
    calls: Seq<DelegationCall>,
    r: Seq<DelegateResult>,
) -> bool {
    exists|
        spawned: Seq<Result<AgentStatus, String>>,
        joined: Seq<Result<DelegateResult, String>>,
    | #[trigger]
        may_answer(host, parent, revision, options, spawned, joined) && {
            &&& calls == spawn_calls(parent, revision, options, spawned) + join_calls(
                spawned,
                joined,
            )
            &&& r.len() == options.len()
            &&& forall|i: int|
                0 <= i < r.len() ==> reports(spawned[i], joined[i], revision, #[trigger] r[i])
        }
}

/// Bounded parallel delegation: spawn every worker, then join in input order.
///
/// There is one result per request, in input order; a worker that did not
/// start, or whose join failed, is reported as a failure in its place.
pub fn delegate_batch_sync<H: DelegationHost>(
    line: &mut HostLine<'_, H>,
    parent: &PtcExecution,
    revision: &RevisionId,
    options: Vec<AgentSpawnOptions>,
) -> (r: Vec<DelegateResult>)
    ensures
        final(line).host() == old(line).host(),
        exists|calls: Seq<DelegationCall>|
            #![trigger old(line).history() + calls]
            final(line).history() == old(line).history() + calls && batch_delegated(
                old(line).host(),
                *parent,
                *revision,
                options@,
                calls,
                r@,
            ),
{
    let ghost requests = options@;
    let ghost host = line.host();
    let ghost before = line.history();
    let mut spawned: Vec<Result<AgentStatus, String>> = Vec::new();
    proof {
        assert(before + spawn_calls(*parent, *revision, requests, spawned@) =~= before);
    }
    for option in iter: options
        invariant
            iter.seq() == requests,
            spawned@.len() == iter.index(),
            line.host() == host,
            line.history() == before + spawn_calls(*parent, *revision, requests, spawned@),
            forall|i: int|
                0 <= i < spawned@.len() ==> #[trigger] host.may_spawn(
                    *parent,
                    *revision,
                    requests[i],
                    spawned@[i],
                ),
    {
        let ghost was = spawned@;
        let answer = line.spawn(parent, revision, option);
        spawned.push(answer);
        proof {
            assert(requests[was.len() as int] == option);
            assert(before + spawn_calls(*parent, *revision, requests, spawned@) =~= (before
                + spawn_calls(*parent, *revision, requests, was)).push(
                DelegationCall::Spawn {
                    parent: *parent,
                    revision: *revision,
                    options: option,
                    answer,
                },
            ));
        }
    }
    let ghost answers = spawned@;
    let ghost spawns = spawn_calls(*parent, *revision, requests, answers);
    let ghost mut joined: Seq<Result<DelegateResult, String>> = Seq::empty();
    let mut out: Vec<DelegateResult> = Vec::new();
    proof {
        assert(before + spawns + join_calls(answers.take(0), joined) =~= before + spawns);
    }
    for spawn in iter: spawned
        invariant
            iter.seq() == answers,
            out@.len() == iter.index(),
            joined.len() == iter.index(),
            line.host() == host,
            line.history() == before + spawns + join_calls(
                answers.take(iter.index() as int),
                joined,
            ),
            forall|i: int|
                0 <= i < joined.len() ==> ((#[trigger] answers[i]) matches Ok(status)
                    ==> host.may_join(status.agent, joined[i])),
            forall|i: int|
                0 <= i < out@.len() ==> reports(
                    answers[i],
                    joined[i],
                    *revision,
                    #[trigger] out@[i],
                ),
    {
        let ghost done = answers.take(iter.index() as int);
        let ghost next = answers.take(iter.index() + 1);
        let ghost was = joined;
        proof {
            assert(answers[iter.index() as int] == spawn);
            assert(next.drop_last() =~= done);
            assert(next.last() == spawn);
        }
        let entry = match spawn {
            Ok(status) => {
                let answer = line.join(status.agent);
                proof {
                    joined = was.push(answer);
                }
                joined_result(status.task_id, status.agent, answer, revision)
            },
            Err(error) => {
                proof {
                    joined = was.push(arbitrary());
                }
                unspawned_result(error, revision)
            },
        };
        proof {
            assert(joined.drop_last() =~= was);
            assert(line.history() =~= before + spawns + join_calls(next, joined));
        }
        out.push(entry);
    }
    proof {
        assert(answers.take(answers.len() as int) =~= answers);
        let calls = spawns + join_calls(answers, joined);
        assert(may_answer(host, *parent, *revision, requests, answers, joined));
        assert(line.history() =~= before + calls);
        assert(batch_delegated(host, *parent, *revision, requests, calls, out@));
    }
    out
}

/// In a batch no worker is waited for before every request was made: where the
/// calls of a batch hold a join, all that precede the first one are its spawns,
/// one for each request, in order.
pub proof fn law_a_batch_spawns_before_it_joins<H: DelegationHost>(
    host: H,
    parent: PtcExecution,
    revision: RevisionId,
    options: Seq<AgentSpawnOptions>,
    calls: Seq<DelegationCall>,
    r: Seq<DelegateResult>,
    i: int,
)
    requires
        batch_delegated(host, parent, revision, options, calls, r),
        0 <= i < calls.len(),
    ensures
        r.len() == options.len(),
        options.len() <= calls.len() <= 2 * options.len(),
        i < options.len() ==> (calls[i] matches DelegationCall::Spawn {
            parent: p,
            revision: at,
            options: o,
            answer: _,
        } && p == parent && at == revision && o == options[i]),
        i >= options.len() ==> calls[i] is Join,
{
    let (spawned, joined) = choose|
        spawned: Seq<Result<AgentStatus, String>>,
        joined: Seq<Result<DelegateResult, String>>,
    | #[trigger]
        may_answer(host, parent, revision, options, spawned, joined) && {
            &&& calls == spawn_calls(parent, revision, options, spawned) + join_calls(
                spawned,
                joined,
            )
            &&& r.len() == options.len()
            &&& forall|i: int|
                0 <= i < r.len() ==> reports(spawned[i], joined[i], revision, #[trigger] r[i])
        };
    lemma_join_calls(spawned, joined);
}

proof fn lemma_join_calls(
    spawned: Seq<Result<AgentStatus, String>>,
    joined: Seq<Result<DelegateResult, String>>,
)
    ensures
        join_calls(spawned, joined).len() <= spawned.len(),
        forall|i: int|
            0 <= i < join_calls(spawned, joined).len() ==> (#[trigger] join_calls(
                spawned,
                joined,
            )[i]) is Join,
    decreases spawned.len(),
{
    if spawned.len() > 0 {
        lemma_join_calls(spawned.drop_last(), joined.drop_last());
    }
}

} // verus!
