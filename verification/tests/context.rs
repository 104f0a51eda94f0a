use mh::context::{
    canonical_system_prompt, estimate_tokens, item, render_checkpoint, render_goal_state,
    render_work_state, ContextCompiler, ContextError, ContextSource, Priority,
};
use mh::delegation::{AgentAccess, AgentState, DelegateResult};
use mh::goal::{
    Finding, FinishObjection, FinishRequest, FinishVerdict, GoalState, GoalUpdate, TaskStatus,
    WorkItem,
};
use mh::identity::{AgentId, ExecutionId, PreludeId, ProcessId, RevisionId, TaskId};
use mh::json::Json;
use mh::session::{
    build_checkpoint, AgentRecord, EventRecord, EvidenceRecord, ProcessRecord, SessionEvent,
    TaskView,
};

fn revision(id: &str) -> RevisionId {
    RevisionId(id.to_string())
}

fn view_of(task: u64, objective: &str) -> TaskView {
    TaskView {
        task_id: TaskId(task),
        agent: AgentId(0),
        goal: GoalState::new(TaskId(task), objective.to_string(), revision("current")),
        window: 0,
        turns_in_window: 0,
        window_start_seq: 0,
        checkpoint: None,
        latest_user_message: None,
        changed_paths: vec![],
        evidence: vec![],
        agents: vec![],
        processes: vec![],
        prelude: None,
        base_revision: None,
        pending_steering: vec![],
        cancel_requested: false,
        outcome_unknown_executions: vec![],
        unintegrated_workspaces: vec![],
        open_conflict_paths: vec![],
        unresolved_recovery_workspaces: vec![],
    }
}

fn worker(agent: u64, task: u64, objective: &str, access: AgentAccess) -> AgentRecord {
    AgentRecord {
        agent: AgentId(agent),
        task_id: TaskId(task),
        objective: objective.to_string(),
        access,
        profile: None,
        state: AgentState::Queued,
        context: Json::null(),
        result: None,
        inbox: vec![],
        isolated_workspace: None,
    }
}

#[test]
fn hard_overflow_is_explicit() {
    let compiler = ContextCompiler {
        max_tokens: 1,
        soft_limit_tokens: 1,
        system_prompt: "system".to_string(),
        prelude_tools: None,
    };
    let error = compiler
        .select(vec![item(ContextSource::Task, Priority::Hard, "too large".to_string())])
        .unwrap_err();
    assert_eq!(
        error,
        ContextError::HardOverflow {
            required_tokens: estimate_tokens("too large"),
            max_tokens: 1
        }
    );
}

#[test]
fn selection_never_exceeds_budget() {
    let compiler = ContextCompiler {
        max_tokens: 5,
        soft_limit_tokens: 4,
        system_prompt: String::new(),
        prelude_tools: None,
    };
    let compiled = compiler
        .select(vec![
            item(ContextSource::Task, Priority::Hard, "task".to_string()),
            item(ContextSource::Compaction, Priority::Sticky, "sticky context".to_string()),
            item(
                ContextSource::SessionEvent(3),
                Priority::Working,
                "working context".to_string(),
            ),
        ])
        .unwrap();
    assert!(compiled.estimated_tokens <= compiler.max_tokens);
}

#[test]
fn a_rolled_over_window_carries_the_checkpoint_and_drops_the_transcript() {
    let mut view = view_of(1, "refactor storage");
    let mut events = vec![EventRecord {
        seq: 1,
        event: SessionEvent::AssistantMessage {
            task_id: TaskId(1),
            content: "ANCIENT_TRANSCRIPT_LINE".to_string(),
        },
    }];
    let update = GoalUpdate {
        findings: Some(vec![Finding {
            summary: "EARLY_FINDING storage hides behind a trait".to_string(),
            paths: vec![],
        }]),
        pending: Some(vec![WorkItem::new("update callers")]),
        ..GoalUpdate::default()
    };
    events.push(EventRecord {
        seq: 2,
        event: SessionEvent::GoalUpdated { task_id: TaskId(1), update: update.clone() },
    });
    view.goal.apply(update);
    let checkpoint = build_checkpoint(&view);
    events.push(EventRecord {
        seq: 3,
        event: SessionEvent::Compacted {
            task_id: TaskId(1),
            agent: AgentId(0),
            window: 0,
            summary: render_checkpoint(&checkpoint),
            checkpoint: Some(checkpoint.clone()),
        },
    });
    view.checkpoint = Some(checkpoint);
    view.window = 1;
    view.window_start_seq = 4;

    let compiled = ContextCompiler::default().compile(&view, &events, None).unwrap();
    let rendered = compiled.render();
    assert!(
        rendered.contains("EARLY_FINDING"),
        "an early finding must survive rollover:\n{rendered}"
    );
    assert!(rendered.contains("update callers"), "pending work must survive rollover");
    assert!(
        !rendered.contains("ANCIENT_TRANSCRIPT_LINE"),
        "the pre-rollover transcript must not be replayed:\n{rendered}"
    );
    assert!(rendered.contains("context window: 1"));
}

#[test]
fn worker_context_names_its_parent_and_capability_limits() {
    let mut view = view_of(2, "inspect the parser");
    view.agent = AgentId(1);
    let record = AgentRecord {
        profile: Some("explore".to_string()),
        context: Json::parse("{ \"hint\": \"start at parser.rs\" }").unwrap(),
        ..worker(1, 2, "inspect the parser", AgentAccess::Read)
    };

    let rendered = ContextCompiler::default()
        .compile(&view, &vec![], Some(&record))
        .unwrap()
        .render();
    assert!(rendered.contains("[delegated objective]\ninspect the parser"));
    assert!(rendered.contains("delegated worker with a parent"));
    assert!(rendered.contains("Writes and subprocesses are disabled"));
    assert!(rendered.contains("Profile explore"));
    assert!(rendered.contains("start at parser.rs"));
}

#[test]
fn unresolved_workers_and_processes_appear_in_the_parent_work_state() {
    let mut view = view_of(1, "orchestrate");
    view.agents = vec![AgentRecord {
        state: AgentState::Running,
        ..worker(1, 2, "implement", AgentAccess::IsolatedWrite)
    }];
    view.processes = vec![ProcessRecord {
        process: ProcessId(1),
        state: "running".to_string(),
        argv: vec!["cargo".to_string(), "watch".to_string()],
        exit_code: None,
    }];

    let rendered =
        ContextCompiler::default().compile(&view, &vec![], None).unwrap().render();
    assert!(rendered.contains("agent 1 [running] implement (isolated-write)"));
    assert!(rendered.contains("Unresolved workers block finish()"));
    assert!(rendered.contains("process 1 [running] cargo watch"));
}

#[test]
fn a_refused_finish_is_surfaced_to_the_next_turn() {
    let view = view_of(1, "verify");
    let request = FinishRequest {
        summary: "done".to_string(),
        unresolved: vec![],
        evidence: Json::null(),
        force: false,
    };
    let verdict = FinishVerdict::evaluate(
        vec![FinishObjection::FailedVerification { kinds: vec!["tests".to_string()] }],
        false,
    );
    let events = vec![EventRecord {
        seq: 1,
        event: SessionEvent::FinishProposed { task_id: TaskId(1), request, verdict },
    }];
    let rendered =
        ContextCompiler::default().compile(&view, &events, None).unwrap().render();
    assert!(rendered.contains("finish() refused"));
    assert!(rendered.contains("tests"));
}

#[test]
fn work_state_labels_revision_and_prelude_freshness() {
    let mut view = view_of(1, "inspect");
    let current = view.goal.current_revision.clone();
    let active = PreludeId("sha256:active".to_string());
    view.prelude = Some(active.clone());
    for (kind, revision, prelude, ts) in [
        ("tests", current.clone(), Some(active.clone()), 1u64),
        ("lint", revision("base"), None, 2),
        ("bench", current.clone(), Some(PreludeId("sha256:old".to_string())), 3),
    ] {
        view.evidence.push(EvidenceRecord {
            kind: kind.to_string(),
            ok: true,
            revision,
            result_ids: vec![],
            note: None,
            timestamp_ms: ts,
            task_id: TaskId(1),
            execution_id: ExecutionId(1),
            prelude,
        });
    }
    let rendered = render_work_state(&view);
    assert!(rendered.contains(&format!("task: {}", view.task_id.0)));
    assert!(rendered.contains("tests: PASS @ "));
    assert!(rendered.contains("lint: PASS @ base — stale"));
    assert!(
        rendered.contains("bench: PASS @ ")
            && rendered.contains("stale — recorded under a different prelude"),
        "matching revision under a changed prelude is not fresh: {rendered}"
    );
}

#[test]
fn a_parked_task_is_told_it_is_not_complete() {
    let mut view = view_of(1, "park");
    view.goal.status = TaskStatus::WaitingUser;
    let rendered = render_goal_state(&view);
    assert!(rendered.contains("status: waiting-user"));
    assert!(rendered.contains("It is NOT complete"));
}

#[test]
fn worker_results_are_bounded_in_the_parent_work_state() {
    let mut view = view_of(1, "orchestrate");
    view.agents = vec![AgentRecord {
        state: AgentState::Completed,
        result: Some(DelegateResult {
            task_id: TaskId(2),
            agent: AgentId(1),
            ok: true,
            summary: "x".repeat(5_000),
            base_revision: revision("current"),
            final_revision: revision("current"),
            changed: false,
            workspace: None,
            evidence: vec![],
            findings: Json::null(),
        }),
        ..worker(1, 2, "inspect", AgentAccess::Read)
    }];
    let rendered = render_work_state(&view);
    assert!(rendered.contains("<truncated>"));
    assert!(rendered.len() < 2_000);
}

#[test]
fn canonical_prompt_states_the_v05_completion_contract() {
    let prompt = canonical_system_prompt();
    assert!(prompt.contains("NEVER completes the task"));
    assert!(prompt.contains("finish("));
    assert!(prompt.contains("goal("));
    assert!(prompt.contains("agent_spawn("));
    assert!(prompt.contains("agent_join("));
    assert!(prompt.contains("process_spawn("));
    assert!(prompt.contains("process_tail("));
    assert!(prompt.contains("batch(name, args[])"));
    assert!(prompt.contains("evidence(kind, ok, metadata?)"));
    assert!(prompt.contains("checkpoint()"));
    assert!(prompt.contains("restore(checkpoint)"));
    assert!(prompt.contains(".totalBytes"));
    assert!(prompt.contains("write/edit/restore are not batch-safe"));
    assert!(prompt.contains("replace let/const with var"));
}

#[test]
fn tokens_are_estimated_by_size() {
    assert_eq!(estimate_tokens(""), 1);
    assert_eq!(estimate_tokens("abcd"), 1);
    assert_eq!(estimate_tokens("abcde"), 2);
}

#[test]
fn selection_prefers_what_is_needed_and_keeps_the_order() {
    let compiler = ContextCompiler {
        max_tokens: 3,
        soft_limit_tokens: 2,
        system_prompt: String::new(),
        prelude_tools: None,
    };
    let compiled = compiler
        .select(vec![
            item(ContextSource::SessionEvent(1), Priority::Working, "work".to_string()),
            item(ContextSource::Task, Priority::Hard, "task".to_string()),
            item(ContextSource::Compaction, Priority::Sticky, "note".to_string()),
            item(ContextSource::SessionEvent(2), Priority::Working, "more".to_string()),
        ])
        .unwrap();
    assert_eq!(compiled.omitted_items, 1);
    let kept: Vec<&str> = compiled.items.iter().map(|i| i.content.as_str()).collect();
    assert!(kept.contains(&"task") && kept.contains(&"note"));
    assert_eq!(
        compiled.estimated_tokens,
        compiled.items.iter().map(|i| i.estimated_tokens).sum::<usize>()
    );
    assert!(compiler.needs_rollover(&compiled));
    assert_eq!(compiled.render(), kept.join("\n\n"));
}

#[test]
fn an_overflow_says_what_was_needed() {
    let error = ContextError::HardOverflow { required_tokens: 9, max_tokens: 4 };
    assert!(error.message().contains('9') && error.message().contains('4'));
}
