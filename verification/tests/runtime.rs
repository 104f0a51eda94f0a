use mh::agent::{inspect, AgentError};
use mh::delegation::{AgentAccess, AgentState, DelegateResult, DelegationBudget};
use mh::goal::{GoalState, TaskStatus};
use mh::identity::{AgentId, ProcessId, RevisionId, TaskId};
use mh::json::Json;
use mh::process::{ProcessSnapshot, ProcessState};
use mh::runtime::{
    bounded_context, cancel_task, chosen_task, process_state_label, recover_processes,
    shutdown_task_processes, steer_task, task_reports, JoinStep, Slots, WorkerRegistry,
};
use mh::session::{SessionError, SessionEvent, TaskView};
use serde_json::Value;

fn registry_worker(registry: &mut WorkerRegistry, agent: AgentId) {
    registry.register(
        agent,
        TaskId(agent.0 + 10),
        format!("objective {}", agent.0),
        AgentAccess::Read,
        None,
    )
}

fn result(agent: AgentId, ok: bool) -> DelegateResult {
    DelegateResult {
        task_id: TaskId(agent.0 + 10),
        agent,
        ok,
        summary: if ok { "done" } else { "failed" }.to_string(),
        base_revision: RevisionId("r".to_string()),
        final_revision: RevisionId("r".to_string()),
        changed: false,
        workspace: None,
        evidence: vec![],
        findings: Json::null(),
    }
}

#[test]
fn join_blocks_until_the_worker_settles() {
    let mut registry = WorkerRegistry::default();
    registry_worker(&mut registry, AgentId(1));
    registry.attach_thread(AgentId(1));
    assert_eq!(registry.join(AgentId(1)), Ok(JoinStep::Wait));
    registry.settle(AgentId(1), result(AgentId(1), true));
    let joined = registry.join(AgentId(1)).unwrap();
    match joined {
        JoinStep::Done { result, reap } => {
            assert!(result.ok);
            assert!(reap);
        }
        JoinStep::Wait => panic!("the worker has settled"),
    }
    assert_eq!(registry.snapshot(AgentId(1)).unwrap().state, AgentState::Completed);
    assert!(matches!(registry.join(AgentId(1)), Ok(JoinStep::Done { reap: false, .. })));
}

#[test]
fn cancellation_affects_only_the_selected_worker() {
    let mut registry = WorkerRegistry::default();
    registry_worker(&mut registry, AgentId(1));
    registry_worker(&mut registry, AgentId(2));
    registry.cancel(AgentId(1)).unwrap();
    assert!(registry.is_cancelled(AgentId(1)));
    assert!(
        !registry.is_cancelled(AgentId(2)),
        "cancelling one worker must not touch its sibling"
    );
}

#[test]
fn a_cancelled_worker_settles_as_cancelled_not_failed() {
    let mut registry = WorkerRegistry::default();
    registry_worker(&mut registry, AgentId(3));
    registry.cancel(AgentId(3)).unwrap();
    registry.settle(AgentId(3), result(AgentId(3), false));
    assert_eq!(registry.snapshot(AgentId(3)).unwrap().state, AgentState::Cancelled);
}

#[test]
fn joining_an_unknown_agent_is_an_error_not_a_hang() {
    let mut registry = WorkerRegistry::default();
    assert!(registry.join(AgentId(99)).unwrap_err().contains("unknown agent"));
    assert!(registry.cancel(AgentId(99)).is_err());
}

#[test]
fn oversized_parent_context_is_replaced_by_a_marker() {
    let big = Json::parse(&format!("\"{}\"", "x".repeat(2048))).unwrap();
    assert_eq!(
        bounded_context(big, 512).bool_at("/truncated"),
        Some(true),
        "an oversized context must not silently enter the child"
    );
    let small = Json::parse("{\"hint\":\"ok\"}").unwrap();
    assert_eq!(bounded_context(small.clone(), 512), small);
}

#[test]
fn the_marker_says_how_large_the_context_was() {
    let big = Json::parse(&format!("\"{}\"", "x".repeat(2048))).unwrap();
    let marker: Value = serde_json::from_str(&bounded_context(big, 512).text).unwrap();
    assert_eq!(marker["bytes"].as_u64(), Some(2050));
}

#[test]
fn ending_a_task_takes_every_thread_once() {
    let mut registry = WorkerRegistry::new();
    for n in [3, 1, 2] {
        registry_worker(&mut registry, AgentId(n));
    }
    registry.attach_thread(AgentId(3));
    registry.attach_thread(AgentId(1));
    registry.cancel_all();
    assert!(registry.is_cancelled(AgentId(2)));
    assert_eq!(registry.join_all(), vec![AgentId(1), AgentId(3)]);
    assert!(registry.join_all().is_empty());
    let order: Vec<u64> = registry.list().iter().map(|w| w.agent.0).collect();
    assert_eq!(order, vec![1, 2, 3]);
}

#[test]
fn worker_states_follow_the_worker() {
    let mut registry = WorkerRegistry::new();
    registry_worker(&mut registry, AgentId(1));
    assert_eq!(registry.snapshot(AgentId(1)).unwrap().state, AgentState::Queued);
    registry.set_state(AgentId(1), AgentState::Running);
    assert_eq!(registry.snapshot(AgentId(1)).unwrap().state, AgentState::Running);
    registry.settle(AgentId(1), result(AgentId(1), false));
    assert_eq!(registry.snapshot(AgentId(1)).unwrap().state, AgentState::Failed);
    assert!(registry.snapshot(AgentId(7)).is_none());
}

#[test]
fn workers_are_bounded_by_the_budget() {
    let mut slots = Slots::new(4);
    let budget = DelegationBudget { max_children: 2, ..DelegationBudget::default() };
    assert!(slots.reserve_worker_slot(&budget).is_ok());
    assert!(slots.reserve_worker_slot(&budget).is_ok());
    assert_eq!(
        slots.reserve_worker_slot(&budget).unwrap_err(),
        "delegation child budget exceeded (2 children)"
    );
    slots.release_worker_slot();
    assert!(slots.reserve_worker_slot(&budget).is_ok());
    assert_eq!(slots.allocate_workspace().0, 4);
    assert_eq!(slots.allocate_workspace().0, 5);
}

#[test]
fn no_more_workers_live_at_once_than_may_run_in_parallel() {
    let mut slots = Slots::new(1);
    let budget = DelegationBudget::default();
    for _ in 0..4 {
        assert!(slots.reserve_worker_slot(&budget).is_ok());
    }
    assert_eq!(
        slots.reserve_worker_slot(&budget).unwrap_err(),
        "delegation child budget exceeded (4 children)"
    );
    slots.release_worker_slot();
    assert!(slots.reserve_worker_slot(&budget).is_ok());
}

#[test]
fn requests_reach_active_tasks_only() {
    let active = Some((TaskId(3), TaskStatus::WaitingUser));
    assert!(matches!(
        steer_task(active, "look at the docs"),
        Ok(SessionEvent::SteeringQueued { task_id: TaskId(3), content })
            if content == "look at the docs"
    ));
    assert!(matches!(
        cancel_task(active),
        Ok(SessionEvent::TaskCancelRequested { task_id: TaskId(3) })
    ));
    let settled = Some((TaskId(3), TaskStatus::Completed));
    assert_eq!(
        steer_task(settled, "x").unwrap_err().message(),
        "cannot steer task 3: already completed"
    );
    assert_eq!(cancel_task(None).unwrap_err().message(), "no task to cancel");
    assert_eq!(chosen_task(None, Some(TaskId(1))), Some(TaskId(1)));
    assert_eq!(chosen_task(Some(TaskId(2)), Some(TaskId(1))), Some(TaskId(2)));
}

fn snapshot(id: u64, task: u64, state: ProcessState) -> ProcessSnapshot {
    ProcessSnapshot {
        id: ProcessId(id),
        owner_task: TaskId(task),
        owner_agent: AgentId(0),
        argv: vec!["sleep".to_string()],
        cwd: "/ws".to_string(),
        label: None,
        pid: Some(9),
        state,
        started_at_ms: 1,
        exited_at_ms: None,
        exit_code: None,
        stdout_bytes: 0,
        stderr_bytes: 0,
        pid_alive: Some(true),
    }
}

#[test]
fn process_states_are_journaled_by_name() {
    let states = [
        (ProcessState::Running, "running"),
        (ProcessState::Exited, "exited"),
        (ProcessState::Killed, "killed"),
        (ProcessState::Failed, "failed"),
        (ProcessState::Orphaned, "orphaned"),
    ];
    for (state, label) in states {
        assert_eq!(process_state_label(state), label);
    }
    let events = recover_processes(&vec![snapshot(1, 7, ProcessState::Orphaned)]);
    assert!(matches!(
        &events[0],
        SessionEvent::ProcessStateChanged { task_id: TaskId(7), state, pid_alive: Some(true), .. }
            if state == "orphaned"
    ));
    let events = shutdown_task_processes(TaskId(2), &vec![snapshot(1, 7, ProcessState::Killed)]);
    assert!(matches!(
        &events[0],
        SessionEvent::ProcessStateChanged { task_id: TaskId(2), pid_alive: None, .. }
    ));
}

#[test]
fn reports_say_what_the_journal_says() {
    let mut view = TaskView {
        task_id: TaskId(1),
        agent: AgentId(0),
        goal: GoalState::new(TaskId(1), "ship".to_string(), RevisionId("r1".to_string())),
        window: 2,
        turns_in_window: 1,
        window_start_seq: 0,
        checkpoint: None,
        latest_user_message: None,
        changed_paths: vec![],
        evidence: vec![],
        agents: vec![],
        processes: vec![],
        prelude: None,
        base_revision: None,
        pending_steering: vec!["hurry".to_string()],
        cancel_requested: true,
        outcome_unknown_executions: vec![],
        unintegrated_workspaces: vec![],
        open_conflict_paths: vec![],
        unresolved_recovery_workspaces: vec![],
    };
    view.goal.pending_work = vec![mh::goal::WorkItem::new("docs")];
    let reports = task_reports(&vec![view.clone()]);
    assert_eq!(inspect(Ok(vec![view])), Ok(reports.clone()));
    let missing = SessionError::NoSession("/w".to_string());
    assert_eq!(inspect(Err(missing.clone())), Err(AgentError::Session(missing)));
    assert_eq!(reports.len(), 1);
    assert_eq!(reports[0].objective, "ship");
    assert_eq!(reports[0].window, 2);
    assert_eq!(reports[0].pending, vec!["docs".to_string()]);
    assert_eq!(reports[0].pending_steering, vec!["hurry".to_string()]);
    assert!(reports[0].cancel_requested);
}
