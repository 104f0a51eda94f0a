use mh::agent::{AgentError, TaskOutcome};
use mh::delegation::{
    unspawned_result, AgentAccess, AgentSpawnOptions, AgentState, DelegationBudget,
};
use mh::goal::{FinishRequest, GoalState, GoalUpdate, TaskStatus, WorkItem};
use mh::host;
use mh::identity::{AgentId, ExecutionId, IsolatedWorkspaceId, ProcessId, RevisionId, TaskId};
use mh::isolation::{IntegrationResult, IsolatedWorkspaceRecord, IsolationError};
use mh::json::Json;
use mh::process::{ProcessSnapshot, ProcessState};
use mh::ptc::calls::{batch_answer, finish_answer, host_error};
use mh::ptc::runtime::PtcExecution;
use mh::runtime::{Slots, WorkerRegistry};
use mh::session::{
    finish_objections, AgentRecord, EvidenceRecord, ProcessRecord, SessionEvent, TaskView,
};

fn revision(id: &str) -> RevisionId {
    RevisionId(id.to_string())
}

fn parent() -> PtcExecution {
    PtcExecution {
        task_id: TaskId(1),
        agent: AgentId(0),
        execution_id: ExecutionId(3),
        start_revision: revision("r1"),
    }
}

fn worker(state: AgentState) -> AgentRecord {
    AgentRecord {
        agent: AgentId(4),
        task_id: TaskId(5),
        objective: "implement".to_string(),
        access: AgentAccess::IsolatedWrite,
        profile: Some("implement".to_string()),
        state,
        context: Json::null(),
        result: None,
        inbox: vec![],
        isolated_workspace: Some(IsolatedWorkspaceId(6)),
    }
}

fn view() -> TaskView {
    TaskView {
        task_id: TaskId(1),
        agent: AgentId(0),
        goal: GoalState::new(TaskId(1), "ship".to_string(), revision("r1")),
        window: 2,
        turns_in_window: 3,
        window_start_seq: 0,
        checkpoint: None,
        latest_user_message: None,
        changed_paths: vec![],
        evidence: vec![],
        agents: vec![],
        processes: vec![],
        prelude: None,
        base_revision: None,
        pending_steering: vec![],
        cancel_requested: false,
        outcome_unknown_executions: vec![],
        unintegrated_workspaces: vec![],
        open_conflict_paths: vec![],
        unresolved_recovery_workspaces: vec![],
    }
}

fn options(access: Option<AgentAccess>, profile: Option<&str>) -> AgentSpawnOptions {
    AgentSpawnOptions {
        task: "inspect".to_string(),
        access,
        profile: profile.map(|p| p.to_string()),
        context: Json::parse("{\"hint\":1}").unwrap(),
    }
}

#[test]
fn delegation_is_one_level_deep() {
    let mut slots = Slots::new(1);
    let budget = DelegationBudget::default();
    let read = options(Some(AgentAccess::Read), None);
    assert_eq!(
        host::agent_spawn(AgentId(2), &read, &mut slots, &budget).unwrap_err(),
        "unavailable in a delegated worker"
    );
    assert!(host::agent_spawn(AgentId(0), &read, &mut slots, &budget).is_ok());
    let refused = host::check_integrate(AgentId(2), true, None, IsolatedWorkspaceId(6)).unwrap();
    assert_eq!(
        refused.error,
        Some("integrate: unavailable in a delegated worker".to_string())
    );
    assert!(host::check_discard(AgentId(2), true, None, IsolatedWorkspaceId(6)).is_err());
}

#[test]
fn a_refusal_in_a_worker_names_the_call() {
    let mut slots = Slots::new(1);
    let budget = DelegationBudget::default();
    let read = options(Some(AgentAccess::Read), None);
    let mut refused =
        || host::agent_spawn(AgentId(2), &read, &mut slots, &budget).unwrap_err();
    assert_eq!(
        host_error("agent_spawn", &refused()),
        "agent_spawn: unavailable in a delegated worker"
    );
    assert_eq!(host_error("delegate", &refused()), "delegate: unavailable in a delegated worker");
    let entries = vec![
        unspawned_result(refused(), &revision("r1")),
        unspawned_result(refused(), &revision("r1")),
    ];
    let shown = batch_answer("delegate_batch", entries);
    assert_eq!(shown.len(), 2);
    for entry in shown {
        assert!(!entry.ok);
        assert_eq!(entry.task_id, TaskId(0));
        assert_eq!(entry.agent, AgentId(0));
        assert_eq!(entry.base_revision, revision("r1"));
        assert_eq!(entry.summary, "delegate_batch: unavailable in a delegated worker");
    }
    let id = IsolatedWorkspaceId(6);
    let integrate = host::check_integrate(AgentId(2), true, None, id).unwrap().error.unwrap();
    assert_eq!(
        host_error("integrate", &integrate),
        "integrate: unavailable in a delegated worker"
    );
    let discard = host::check_discard(AgentId(2), true, None, id).unwrap_err();
    assert_eq!(host_error("discard", &discard), "discard: unavailable in a delegated worker");
}

#[test]
fn a_refused_finish_is_a_value() {
    let mut blocked = view();
    blocked.goal.apply(GoalUpdate {
        pending: Some(vec![WorkItem::new("ship \"it\"")]),
        ..GoalUpdate::default()
    });
    let (verdict, completed) = host::finish(&blocked, &FinishRequest::default());
    assert_eq!(completed, None);
    let explanation = verdict.explain();
    let answer = finish_answer("finish", Ok(verdict)).unwrap();
    let value: serde_json::Value = serde_json::from_str(&answer.text).unwrap();
    assert_eq!(value["accepted"], false);
    assert_eq!(value["explanation"], explanation.as_str());
    assert_eq!(value["objections"][0]["pendingWork"]["items"][0], "ship \"it\"");
    assert_eq!(value.get("waived"), None);

    let forced = FinishRequest { force: true, ..FinishRequest::default() };
    let (verdict, completed) = host::finish(&blocked, &forced);
    assert!(completed.is_some());
    let answer = finish_answer("finish", Ok(verdict)).unwrap();
    assert_eq!(
        answer.text,
        "{\"accepted\":true,\"explanation\":\"finish accepted\",\
         \"waived\":[{\"pendingWork\":{\"items\":[\"ship \\\"it\\\"\"]}}]}"
    );
    assert_eq!(
        finish_answer("finish", Err("journal closed".to_string())),
        Err("finish: journal closed".to_string())
    );
}

#[test]
fn a_refused_spawn_takes_no_slot() {
    let mut slots = Slots::new(1);
    let budget = DelegationBudget { max_children: 1, ..DelegationBudget::default() };
    let unknown = options(None, Some("wizard"));
    assert!(host::agent_spawn(AgentId(0), &unknown, &mut slots, &budget).is_err());
    let good = options(None, Some("implement"));
    let (access, profile) = host::agent_spawn(AgentId(0), &good, &mut slots, &budget).unwrap();
    assert_eq!(access, AgentAccess::IsolatedWrite);
    assert_eq!(profile.unwrap().name, "implement");
    assert_eq!(
        host::agent_spawn(AgentId(0), &good, &mut slots, &budget).unwrap_err(),
        "delegation child budget exceeded (1 children)"
    );
}

#[test]
fn workers_get_a_workspace_when_they_write() {
    let mut slots = Slots::new(9);
    assert_eq!(host::prepare_workspace(AgentAccess::Read, false, &mut slots), Ok(None));
    assert_eq!(
        host::prepare_workspace(AgentAccess::IsolatedWrite, true, &mut slots),
        Ok(Some(IsolatedWorkspaceId(9)))
    );
    assert_eq!(
        host::prepare_workspace(AgentAccess::IsolatedWrite, false, &mut slots),
        Err("isolated-write requires a Git-root workspace".to_string())
    );
    let record = worker(AgentState::Running);
    assert_eq!(
        host::worker_workspace_id(AgentId(4), Some(&record)),
        Some(IsolatedWorkspaceId(6))
    );
    assert_eq!(host::worker_workspace_id(AgentId(0), Some(&record)), None);
    assert_eq!(host::worker_access(AgentId(4), Some(&record)), Some(AgentAccess::IsolatedWrite));
    assert!(host::may_write(None));
    assert!(!host::may_write(Some(AgentAccess::Read)));
}

#[test]
fn a_worker_executes_where_its_record_says() {
    let id = IsolatedWorkspaceId(6);
    assert_eq!(host::worker_workspace(None, "/ws", None), Ok("/ws".to_string()));
    assert_eq!(
        host::worker_workspace(Some(id), "/ws", None).unwrap_err().message(),
        "isolated-write requires a Git-root workspace"
    );
    let record = IsolatedWorkspaceRecord {
        id,
        owner_task_id: TaskId(5),
        owner_execution_id: ExecutionId(4),
        path: "/ws/.mh/workspaces/6/worktree".to_string(),
        base_revision: revision("r1"),
        final_revision: revision("r1"),
        changed_paths: vec![],
    };
    assert_eq!(
        host::worker_workspace(Some(id), "/ws", Some(Ok(record))),
        Ok("/ws/.mh/workspaces/6/worktree".to_string())
    );
    let missing = Some(Err(IsolationError::NotFound(id)));
    assert_eq!(
        host::worker_workspace(Some(id), "/ws", missing).unwrap_err().message(),
        "isolated workspace 6 was not found"
    );
}

#[test]
fn a_spawn_is_journaled_with_its_parent() {
    let event = host::spawned_event(
        &parent(),
        AgentId(4),
        TaskId(5),
        &options(Some(AgentAccess::Read), None),
        AgentAccess::Read,
        None,
        &revision("r1"),
        None,
    );
    assert!(matches!(
        event,
        SessionEvent::AgentSpawned {
            parent_task_id: TaskId(1),
            parent_agent: AgentId(0),
            agent: AgentId(4),
            task_id: TaskId(5),
            context,
            isolated_workspace: None,
            ..
        } if context.text == "{\"hint\":1}"
    ));
    let budget = DelegationBudget::default();
    assert_eq!(host::worker_turns(&None, &budget), 16);
    let profile = mh::delegation::profile("explore").unwrap();
    assert_eq!(
        host::worker_turns(&Some("explore".to_string()), &budget),
        profile.max_turns_per_window
    );
}

fn ended(outcome: Result<TaskOutcome, AgentError>) -> host::WorkerEnd {
    host::WorkerEnd {
        agent: AgentId(4),
        task_id: TaskId(5),
        base_revision: revision("r1"),
        finalized: Some((IsolatedWorkspaceId(6), revision("r2"))),
        recorded_revision: revision("r1"),
        outcome,
        evidence: vec![],
        findings: Some(Json::parse("{\"n\":1}").unwrap()),
    }
}

#[test]
fn a_worker_settles_with_a_result() {
    let result =
        host::worker_result(ended(Ok(TaskOutcome::AwaitingUser("did it".to_string()))), 1024);
    assert!(result.ok && result.changed);
    assert_eq!(result.summary, "did it");
    assert_eq!(result.final_revision, revision("r2"));
    assert_eq!(result.workspace, Some(IsolatedWorkspaceId(6)));
    assert_eq!(result.findings.text, "{\"n\":1}");

    let cancelled = host::worker_result(ended(Err(AgentError::Cancelled)), 1024);
    assert!(!cancelled.ok);
    assert_eq!(cancelled.summary, "cancelled");
    let failed = host::worker_result(ended(Err(AgentError::WindowLimit(4))), 2);
    assert_eq!(failed.summary, "task did not converge within 4 context windows");
    assert_eq!(failed.findings.bool_at("/truncated"), Some(true));

    assert_eq!(
        host::settled_status(TaskStatus::Running, true, false),
        Some(TaskStatus::Completed)
    );
    assert_eq!(
        host::settled_status(TaskStatus::Running, false, true),
        Some(TaskStatus::Cancelled)
    );
    assert_eq!(
        host::settled_status(TaskStatus::Running, false, false),
        Some(TaskStatus::Failed)
    );
    assert_eq!(host::settled_status(TaskStatus::Completed, false, false), None);
}

#[test]
fn status_prefers_the_live_worker() {
    let mut registry = WorkerRegistry::new();
    let implement = "implement".to_string();
    registry.register(AgentId(4), TaskId(5), implement, AgentAccess::IsolatedWrite, None);
    let record = worker(AgentState::Completed);
    let live = registry.snapshot(AgentId(4)).unwrap();
    let status = host::status(AgentId(4), Some(&live), Some(&record), &view()).unwrap();
    assert_eq!(status.state, AgentState::Queued);
    assert_eq!(status.window, 2);
    let recorded = host::status(AgentId(4), None, Some(&record), &view()).unwrap();
    assert_eq!(recorded.state, AgentState::Completed);
    assert!(recorded.done);
    assert_eq!(
        host::status(AgentId(9), None, None, &view()).unwrap_err(),
        "unknown agent 9"
    );
}

#[test]
fn messages_reach_workers_that_still_run() {
    let running = worker(AgentState::Running);
    let sent = host::agent_send(AgentId(4), Some(&running), "also the tests".to_string());
    assert!(matches!(
        sent,
        Ok(SessionEvent::AgentMessage { agent: AgentId(4), task_id: TaskId(5), content })
            if content == "also the tests"
    ));
    let settled = worker(AgentState::Completed);
    assert!(host::agent_send(AgentId(4), Some(&settled), "late".to_string()).is_err());
    assert!(host::agent_send(AgentId(8), None, "who".to_string()).is_err());
    assert!(matches!(
        host::cancelled_event(AgentId(4), Some(&running)),
        SessionEvent::AgentStateChanged { agent: AgentId(4), state: AgentState::Cancelled, .. }
    ));
}

#[test]
fn a_live_workspace_is_left_alone() {
    let running = worker(AgentState::Running);
    let id = IsolatedWorkspaceId(6);
    let refused = host::check_integrate(AgentId(0), true, Some(&running), id).unwrap();
    assert_eq!(
        refused.error,
        Some("agent 4 still owns workspace 6; join or cancel it first".to_string())
    );
    assert!(host::check_discard(AgentId(0), true, Some(&running), id).is_err());
    let settled = worker(AgentState::Completed);
    assert!(host::check_integrate(AgentId(0), true, Some(&settled), id).is_none());
    assert_eq!(host::check_discard(AgentId(0), true, Some(&settled), id), Ok(()));
    let agents = vec![worker(AgentState::Completed)];
    assert_eq!(host::workspace_owner(&agents, id).unwrap().agent, AgentId(4));
    assert!(host::workspace_owner(&agents, IsolatedWorkspaceId(7)).is_none());
}

#[test]
fn integration_is_answered_and_journaled() {
    let owner = worker(AgentState::Completed);
    let applied = IntegrationResult::Applied {
        previous_revision: revision("r1"),
        current_revision: revision("r2"),
        changed_paths: vec!["a".to_string()],
    };
    let (events, response) = host::integrate(&parent(), Some(&owner), Ok(applied));
    assert!(response.ok && !response.conflict && response.requires_reverification);
    assert_eq!(response.parent_revision, Some(revision("r2")));
    assert_eq!(response.paths, vec!["a".to_string()]);
    assert!(
        events.iter().any(|e| matches!(e, SessionEvent::IntegrationCompleted { .. })),
        "{events:?}"
    );

    let conflict = IntegrationResult::Conflict {
        child_base: revision("r1"),
        parent_current: revision("r3"),
        paths: vec!["a".to_string()],
    };
    let (events, response) = host::integrate(&parent(), Some(&owner), Ok(conflict));
    assert!(!response.ok && response.conflict && !response.requires_reverification);
    assert_eq!(response.parent_current, Some(revision("r3")));
    assert!(events.iter().any(|e| matches!(e, SessionEvent::IntegrationConflict { .. })));

    let (events, response) = host::integrate(&parent(), None, Err("git failed".to_string()));
    assert!(!response.ok && !response.conflict);
    assert_eq!(response.error, Some("git failed".to_string()));
    assert!(events.is_empty());

    let id = IsolatedWorkspaceId(6);
    let started = host::integration_started(
        &parent(),
        id,
        Some(&owner),
        &revision("r1"),
        &revision("r1"),
    );
    assert!(matches!(started, SessionEvent::IntegrationStarted { agent: AgentId(4), .. }));
    let (event, answer) = host::discard(&parent(), id, Some(&owner), "redo".to_string());
    assert!(matches!(
        event,
        SessionEvent::IntegrationDiscarded { reason, .. } if reason == "redo"
    ));
    assert!(serde_json::from_str::<serde_json::Value>(&answer.text).is_ok());
}

#[test]
fn goals_are_recorded_where_they_say_something() {
    let empty = host::goal_update(&parent(), GoalUpdate::default());
    assert!(empty.is_err());
    let update = GoalUpdate {
        pending: Some(vec![WorkItem::new("docs")]),
        ..GoalUpdate::default()
    };
    assert!(matches!(
        host::goal_update(&parent(), update),
        Ok(SessionEvent::GoalUpdated { task_id: TaskId(1), .. })
    ));
}

fn request(force: bool) -> FinishRequest {
    FinishRequest {
        summary: "done".to_string(),
        unresolved: vec![],
        evidence: Json::null(),
        force,
    }
}

fn evidence(kind: &str, ok: bool, at: &str) -> EvidenceRecord {
    EvidenceRecord {
        kind: kind.to_string(),
        ok,
        revision: revision(at),
        result_ids: vec![],
        note: None,
        timestamp_ms: 0,
        task_id: TaskId(1),
        execution_id: ExecutionId(1),
        prelude: None,
    }
}

#[test]
fn a_clean_task_finishes() {
    let (verdict, summary) = host::finish(&view(), &request(false));
    assert!(verdict.accepted);
    assert_eq!(summary, Some("done".to_string()));
}

#[test]
fn finish_is_refused_over_runtime_facts_even_by_force() {
    let mut blocked: Vec<TaskView> = vec![];
    let mut v = view();
    v.agents = vec![worker(AgentState::Running)];
    blocked.push(v);
    let mut v = view();
    v.processes = vec![ProcessRecord {
        process: ProcessId(1),
        state: "running".to_string(),
        argv: vec![],
        exit_code: None,
    }];
    blocked.push(v);
    let mut v = view();
    v.evidence = vec![evidence("tests", true, "r1"), evidence("tests", false, "r1")];
    blocked.push(v);
    let mut v = view();
    v.unintegrated_workspaces = vec![6];
    blocked.push(v);
    let mut v = view();
    v.open_conflict_paths = vec!["a".to_string()];
    blocked.push(v);
    let mut v = view();
    v.outcome_unknown_executions = vec![ExecutionId(1)];
    blocked.push(v);
    let mut v = view();
    v.changed_paths = vec!["a".to_string()];
    v.goal.last_verified_revision = Some(revision("r0"));
    blocked.push(v);
    for v in blocked {
        let (verdict, summary) = host::finish(&v, &request(true));
        assert!(!verdict.accepted, "{:?}", finish_objections(&v));
        assert_eq!(summary, None);
    }
}

#[test]
fn force_waives_remaining_work() {
    let mut v = view();
    v.goal.pending_work = vec![WorkItem::new("docs")];
    assert!(!host::finish(&v, &request(false)).0.accepted);
    let (verdict, _) = host::finish(&v, &request(true));
    assert!(verdict.accepted);
    assert_eq!(verdict.waived.len(), 1);
}

#[test]
fn evidence_is_fresh_under_the_same_revision_and_prelude() {
    let mut v = view();
    let record = evidence("tests", true, "r1");
    assert!(v.evidence_is_fresh(&record));
    v.goal.current_revision = revision("r2");
    assert!(!v.evidence_is_fresh(&record));
    v.goal.current_revision = revision("r1");
    v.prelude = Some(mh::identity::PreludeId("sha256:p".to_string()));
    assert!(!v.evidence_is_fresh(&record));
    v.evidence = vec![
        evidence("tests", false, "r1"),
        evidence("lint", true, "r1"),
        evidence("tests", true, "r1"),
    ];
    assert_eq!(v.latest_evidence(), vec![1, 2]);
}

#[test]
fn ends_of_processes_are_recorded_once() {
    let snapshot = ProcessSnapshot {
        id: ProcessId(3),
        owner_task: TaskId(1),
        owner_agent: AgentId(0),
        argv: vec!["true".to_string()],
        cwd: "/ws".to_string(),
        label: Some("watch".to_string()),
        pid: Some(7),
        state: ProcessState::Exited,
        started_at_ms: 1,
        exited_at_ms: Some(2),
        exit_code: Some(0),
        stdout_bytes: 0,
        stderr_bytes: 0,
        pid_alive: None,
    };
    let record = |state: &str| ProcessRecord {
        process: ProcessId(3),
        state: state.to_string(),
        argv: vec![],
        exit_code: None,
    };
    assert!(host::record_terminal_process(&snapshot, &vec![record("running")]).is_some());
    assert!(host::record_terminal_process(&snapshot, &vec![record("exited")]).is_none());
    assert!(matches!(
        host::process_spawned(&parent(), &snapshot),
        SessionEvent::ProcessSpawned { process: ProcessId(3), pid: Some(7), .. }
    ));
    let written = host::process_written(ProcessId(3));
    assert!(serde_json::from_str::<serde_json::Value>(&written.text).is_ok());
    let mut registry = WorkerRegistry::new();
    registry.register(AgentId(1), TaskId(2), "a".to_string(), AgentAccess::Read, None);
    registry.register(AgentId(2), TaskId(3), "b".to_string(), AgentAccess::Read, None);
    registry.set_state(AgentId(2), AgentState::Completed);
    assert_eq!(host::reap_settled_workers(&registry.list()), vec![AgentId(2)]);
}
