use std::cell::RefCell;

use mh::agent::{delegate_batch_compat, delegate_compat};
use mh::delegation::{
    delegate_batch_sync, delegate_sync, profile, AgentAccess, AgentSpawnOptions, AgentState,
    AgentStatus, DelegateResult, DelegationBudget, DelegationHost, IntegrationResponse,
};
use mh::goal::{FinishRequest, FinishVerdict, GoalUpdate};
use mh::hostline::HostLine;
use mh::identity::{AgentId, ExecutionId, IsolatedWorkspaceId, ProcessId, RevisionId, TaskId};
use mh::json::Json;
use mh::process::{ProcessSnapshot, ProcessSpec, ProcessStream, ProcessTail};
use mh::ptc::calls::batch_answer;
use mh::ptc::runtime::PtcExecution;

#[test]
fn profile_supplies_access_and_explicit_access_overrides_it() {
    let explore = AgentSpawnOptions {
        task: "inspect".to_string(),
        access: None,
        profile: Some("explore".to_string()),
        context: Json::null(),
    };
    let (access, resolved) = explore.resolve().unwrap();
    assert_eq!(access, AgentAccess::Read);
    assert_eq!(resolved.unwrap().name, "explore");

    let overridden = AgentSpawnOptions { access: Some(AgentAccess::IsolatedWrite), ..explore };
    assert_eq!(overridden.resolve().unwrap().0, AgentAccess::IsolatedWrite);
}

#[test]
fn an_unknown_profile_is_an_error_not_a_silent_default() {
    let error = AgentSpawnOptions {
        task: "x".to_string(),
        access: None,
        profile: Some("wizard".to_string()),
        context: Json::null(),
    }
    .resolve()
    .unwrap_err();
    assert!(error.contains("unknown agent profile 'wizard'"));
    assert!(error.contains("explore"));
}

#[test]
fn access_is_required_when_no_profile_is_given() {
    let error = AgentSpawnOptions {
        task: "x".to_string(),
        access: None,
        profile: None,
        context: Json::null(),
    }
    .resolve()
    .unwrap_err();
    assert!(error.contains("access or profile is required"));
}

#[test]
fn terminal_states_are_exactly_the_settled_ones() {
    assert!(AgentState::Completed.is_terminal());
    assert!(AgentState::Failed.is_terminal());
    assert!(AgentState::Cancelled.is_terminal());
    assert!(!AgentState::Queued.is_terminal());
    assert!(!AgentState::Running.is_terminal());
    assert!(!AgentState::Waiting.is_terminal());
}

#[test]
fn every_profile_is_known_by_its_name() {
    for (name, access) in [
        ("explore", AgentAccess::Read),
        ("implement", AgentAccess::IsolatedWrite),
        ("review", AgentAccess::Read),
        ("test", AgentAccess::IsolatedWrite),
    ] {
        let found = profile(name).unwrap();
        assert_eq!(found.name, name);
        assert_eq!(found.access, access, "{name}");
        assert!(found.max_turns_per_window > 0);
        assert!(!found.instruction.is_empty());
    }
    assert!(profile("Explore").is_none());
    assert_eq!(AgentAccess::IsolatedWrite.label(), "isolated-write");
    assert_eq!(AgentState::Waiting.label(), "waiting");
}

#[test]
fn the_default_budget_is_the_documented_one() {
    let budget = DelegationBudget::default();
    assert_eq!(budget.max_children, 8);
    assert_eq!(budget.max_parallel_children, 4);
    assert_eq!(budget.max_child_turns, 16);
    assert_eq!(budget.max_child_windows, 4);
    assert_eq!(budget.max_findings_bytes, 16 * 1024);
}

fn revision() -> RevisionId {
    RevisionId("r1".to_string())
}

fn execution() -> PtcExecution {
    PtcExecution {
        task_id: TaskId(1),
        agent: AgentId(0),
        execution_id: ExecutionId(1),
        start_revision: revision(),
    }
}

fn options(task: &str) -> AgentSpawnOptions {
    AgentSpawnOptions {
        task: task.to_string(),
        access: Some(AgentAccess::Read),
        profile: None,
        context: Json::null(),
    }
}

/// A host whose workers answer with their objective; one named "refuse" is not
/// started, and one named "lose" cannot be joined.
struct EchoHost {
    objectives: RefCell<Vec<String>>,
    asked: RefCell<Vec<String>>,
}

impl EchoHost {
    fn new() -> EchoHost {
        EchoHost { objectives: RefCell::new(vec![]), asked: RefCell::new(vec![]) }
    }
}

impl DelegationHost for EchoHost {
    fn agent_spawn(
        &self,
        _parent: &PtcExecution,
        revision: &RevisionId,
        options: AgentSpawnOptions,
    ) -> Result<AgentStatus, String> {
        self.asked.borrow_mut().push(format!("spawn {}", options.task));
        if options.task == "refuse" {
            return Err("no slot".to_string());
        }
        let mut objectives = self.objectives.borrow_mut();
        objectives.push(options.task.clone());
        let n = objectives.len() as u64;
        Ok(AgentStatus {
            agent: AgentId(n),
            task_id: TaskId(n + 10),
            state: AgentState::Running,
            objective: options.task,
            access: AgentAccess::Read,
            profile: None,
            done: false,
            window: 0,
            turns_in_window: 0,
            result: None,
            pending: vec![],
            next_actions: vec![],
            current_revision: Some(revision.clone()),
        })
    }

    fn discard(
        &self,
        _parent: &PtcExecution,
        _workspace: IsolatedWorkspaceId,
        _reason: String,
    ) -> Result<Json, String> {
        Err("unused".to_string())
    }

    fn agent_poll(&self, _agent: AgentId) -> Result<AgentStatus, String> {
        Err("unused".to_string())
    }

    fn agent_join(&self, agent: AgentId) -> Result<DelegateResult, String> {
        self.asked.borrow_mut().push(format!("join {}", agent.0));
        let objective = self.objectives.borrow()[agent.0 as usize - 1].clone();
        if objective == "lose" {
            return Err("worker lost".to_string());
        }
        Ok(DelegateResult {
            task_id: TaskId(agent.0 + 10),
            agent,
            ok: true,
            summary: objective,
            base_revision: revision(),
            final_revision: revision(),
            changed: false,
            workspace: None,
            evidence: vec![],
            findings: Json::null(),
        })
    }

    fn agent_cancel(&self, _agent: AgentId) -> Result<AgentStatus, String> {
        Err("unused".to_string())
    }

    fn agent_send(&self, _agent: AgentId, _message: String) -> Result<AgentStatus, String> {
        Err("unused".to_string())
    }

    fn agent_list(&self) -> Vec<AgentStatus> {
        vec![]
    }

    fn integrate(
        &self,
        _parent: &PtcExecution,
        _revision: &RevisionId,
        _workspace: IsolatedWorkspaceId,
    ) -> IntegrationResponse {
        IntegrationResponse::error("unused".to_string())
    }

    fn goal_update(&self, _parent: &PtcExecution, _update: GoalUpdate) -> Result<Json, String> {
        Err("unused".to_string())
    }

    fn finish(
        &self,
        _parent: &PtcExecution,
        _request: FinishRequest,
    ) -> Result<FinishVerdict, String> {
        Err("unused".to_string())
    }

    fn process_spawn(
        &self,
        _parent: &PtcExecution,
        _spec: ProcessSpec,
    ) -> Result<ProcessSnapshot, String> {
        Err("unused".to_string())
    }

    fn process_poll(&self, _process: ProcessId) -> Result<ProcessSnapshot, String> {
        Err("unused".to_string())
    }

    fn process_tail(
        &self,
        _process: ProcessId,
        _stream: ProcessStream,
        _lines: usize,
    ) -> Result<ProcessTail, String> {
        Err("unused".to_string())
    }

    fn process_wait(
        &self,
        _process: ProcessId,
        _timeout_ms: Option<u64>,
    ) -> Result<ProcessSnapshot, String> {
        Err("unused".to_string())
    }

    fn process_kill(&self, _process: ProcessId) -> Result<ProcessSnapshot, String> {
        Err("unused".to_string())
    }

    fn process_write(&self, _process: ProcessId, _data: &str) -> Result<Json, String> {
        Err("unused".to_string())
    }

    fn process_list(&self) -> Vec<ProcessSnapshot> {
        vec![]
    }
}

#[test]
fn synchronous_delegation_spawns_and_then_joins() {
    let host = EchoHost::new();
    let mut line = HostLine::new(&host);
    let result = delegate_sync(&mut line, &execution(), &revision(), options("inspect")).unwrap();
    assert_eq!(result.summary, "inspect");
    assert_eq!(*host.asked.borrow(), vec!["spawn inspect", "join 1"]);
    let same = delegate_compat(&mut line, &execution(), &revision(), options("inspect")).unwrap();
    assert_eq!((same.ok, same.summary), (true, result.summary));
    let several = delegate_batch_compat(
        &mut line,
        &execution(),
        &revision(),
        vec![options("inspect"), options("refuse")],
    );
    assert_eq!(several.len(), 2);
    assert!(several[0].ok && !several[1].ok);
    let error = delegate_sync(&mut line, &execution(), &revision(), options("refuse")).unwrap_err();
    assert_eq!(error, "no slot");
    let error = delegate_sync(&mut line, &execution(), &revision(), options("lose")).unwrap_err();
    assert_eq!(error, "worker lost");
}

#[test]
fn a_batch_names_itself_in_the_entries_that_did_not_start() {
    let host = EchoHost::new();
    let batch = || {
        delegate_batch_sync(
            &mut HostLine::new(&host),
            &execution(),
            &revision(),
            vec![options("a"), options("refuse"), options("lose")],
        )
    };
    let results = batch();
    let shown = batch_answer("delegate_batch", results.clone());
    assert_eq!(shown.len(), 3);
    assert_eq!(shown[0], results[0]);
    assert_eq!(shown[1].summary, "delegate_batch: no slot");
    assert_eq!(
        shown[1],
        DelegateResult { summary: "delegate_batch: no slot".to_string(), ..results[1].clone() }
    );
    assert_eq!(shown[2], results[2]);
    assert_eq!(shown[2].summary, "worker lost");
    let again = batch_answer("delegate_batch", shown.clone());
    assert_eq!(again, shown);
    assert_eq!(batch_answer("delegate_batch", vec![]), vec![]);
}

#[test]
fn a_delegation_batch_reports_in_input_order() {
    let host = EchoHost::new();
    let results = delegate_batch_sync(
        &mut HostLine::new(&host),
        &execution(),
        &revision(),
        vec![options("a"), options("refuse"), options("lose"), options("b")],
    );
    let seen: Vec<(bool, &str, u64)> =
        results.iter().map(|r| (r.ok, r.summary.as_str(), r.agent.0)).collect();
    assert_eq!(
        seen,
        vec![(true, "a", 1), (false, "no slot", 0), (false, "worker lost", 2), (true, "b", 3)]
    );
    assert_eq!(results[1].task_id, TaskId(0));
    assert_eq!(results[2].task_id, TaskId(12));
    assert!(!results[2].changed);
    assert_eq!(
        *host.asked.borrow(),
        vec!["spawn a", "spawn refuse", "spawn lose", "spawn b", "join 1", "join 2", "join 3"]
    );
}

#[test]
fn an_empty_batch_asks_nothing() {
    let host = EchoHost::new();
    let mut line = HostLine::new(&host);
    assert_eq!(delegate_batch_sync(&mut line, &execution(), &revision(), vec![]), vec![]);
    assert!(host.asked.borrow().is_empty());
}

#[test]
fn a_refused_delegation_is_not_joined() {
    let host = EchoHost::new();
    let mut line = HostLine::new(&host);
    assert!(delegate_sync(&mut line, &execution(), &revision(), options("refuse")).is_err());
    let refused = vec![options("refuse"), options("refuse")];
    let results = delegate_batch_sync(&mut line, &execution(), &revision(), refused);
    assert!(results.iter().all(|r| !r.ok));
    assert_eq!(*host.asked.borrow(), vec!["spawn refuse", "spawn refuse", "spawn refuse"]);
}
