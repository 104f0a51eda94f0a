use mh::goal::{
    AcceptanceCriterion, AgentSummary, ContextCheckpoint, Decision, Failure, Finding,
    FinishObjection, FinishVerdict, GoalState, GoalUpdate, ProcessSummary, TaskStatus,
    VerificationSummary, WorkItem,
};
use mh::identity::{AgentId, ExecutionId, ProcessId, RevisionId, TaskId};

fn revision(id: &str) -> RevisionId {
    RevisionId(id.to_string())
}

#[test]
fn goal_update_replaces_only_supplied_fields() {
    let mut goal = GoalState::new(TaskId(1), "refactor".to_string(), revision("r1"));
    goal.apply(GoalUpdate {
        pending: Some(vec![WorkItem::new("update callers")]),
        ..GoalUpdate::default()
    });
    goal.apply(GoalUpdate {
        completed: Some(vec![WorkItem::new("moved module")]),
        ..GoalUpdate::default()
    });
    assert_eq!(goal.pending_work, vec![WorkItem::new("update callers")]);
    assert_eq!(goal.completed_work, vec![WorkItem::new("moved module")]);
    assert_eq!(goal.objective, "refactor", "objective was never restated");
}

#[test]
fn force_waives_judgement_but_never_live_execution() {
    let verdict = FinishVerdict::evaluate(
        vec![
            FinishObjection::PendingWork { items: vec!["tests".to_string()] },
            FinishObjection::UnresolvedAgents { agents: vec![AgentId(3)] },
        ],
        true,
    );
    assert!(!verdict.accepted, "a live worker is not the model's to waive");
    assert_eq!(
        verdict.objections,
        vec![FinishObjection::UnresolvedAgents { agents: vec![AgentId(3)] }]
    );
    assert_eq!(
        verdict.waived,
        vec![FinishObjection::PendingWork { items: vec!["tests".to_string()] }]
    );

    let waived_only = FinishVerdict::evaluate(
        vec![FinishObjection::PendingWork { items: vec!["docs".to_string()] }],
        true,
    );
    assert!(waived_only.accepted);
    assert_eq!(waived_only.waived.len(), 1);
}

#[test]
fn unforced_finish_is_refused_with_an_actionable_explanation() {
    let verdict = FinishVerdict::evaluate(
        vec![FinishObjection::FailedVerification { kinds: vec!["tests".to_string()] }],
        false,
    );
    assert!(!verdict.accepted);
    let explanation = verdict.explain();
    assert!(explanation.contains("finish() refused"));
    assert!(explanation.contains("tests"));
}

#[test]
fn a_verdict_is_answered_as_a_value() {
    assert_eq!(
        FinishVerdict::accepted().answer().text,
        "{\"accepted\":true,\"explanation\":\"finish accepted\"}"
    );
    let objections = vec![
        FinishObjection::UnresolvedAgents { agents: vec![AgentId(4), AgentId(5)] },
        FinishObjection::RunningProcesses { processes: vec![ProcessId(7)] },
        FinishObjection::OutcomeUnknownExecutions { executions: vec![ExecutionId(9)] },
        FinishObjection::FailedVerification { kinds: vec!["tests".to_string()] },
        FinishObjection::StaleVerification { current: revision("r2"), verified: None },
        FinishObjection::StaleVerification {
            current: revision("r3"),
            verified: Some(revision("r1")),
        },
        FinishObjection::PendingWork { items: vec!["a \"b\"".to_string(), "c\n".to_string()] },
        FinishObjection::UnmetCriteria { criteria: vec!["green".to_string()] },
        FinishObjection::UnintegratedWorkspaces { workspaces: vec![3] },
        FinishObjection::OpenConflict { paths: vec!["src/a.rs".to_string()] },
    ];
    let verdict = FinishVerdict::evaluate(objections, true);
    let value: serde_json::Value = serde_json::from_str(&verdict.answer().text).unwrap();
    assert_eq!(value["accepted"], false);
    assert_eq!(value["explanation"], verdict.explain().as_str());
    let shown: Vec<String> =
        value["objections"].as_array().unwrap().iter().map(|o| o.to_string()).collect();
    assert_eq!(
        shown,
        vec![
            "{\"unresolvedAgents\":{\"agents\":[4,5]}}",
            "{\"runningProcesses\":{\"processes\":[7]}}",
            "{\"outcomeUnknownExecutions\":{\"executions\":[9]}}",
            "{\"failedVerification\":{\"kinds\":[\"tests\"]}}",
            "{\"staleVerification\":{\"current\":\"r2\",\"verified\":null}}",
            "{\"staleVerification\":{\"current\":\"r3\",\"verified\":\"r1\"}}",
            "{\"unintegratedWorkspaces\":{\"workspaces\":[3]}}",
            "{\"openConflict\":{\"paths\":[\"src/a.rs\"]}}",
        ]
    );
    let waived: Vec<String> =
        value["waived"].as_array().unwrap().iter().map(|o| o.to_string()).collect();
    assert_eq!(
        waived,
        vec![
            "{\"pendingWork\":{\"items\":[\"a \\\"b\\\"\",\"c\\n\"]}}",
            "{\"unmetCriteria\":{\"criteria\":[\"green\"]}}",
        ]
    );
    assert_eq!(value.to_string(), verdict.answer().text);
}

fn full_checkpoint() -> ContextCheckpoint {
    ContextCheckpoint {
        task_id: TaskId(4),
        window: 2,
        objective: "refactor storage".to_string(),
        status: TaskStatus::Running,
        acceptance_criteria: vec![AcceptanceCriterion {
            description: "tests pass".to_string(),
            met: false,
            evidence_kind: Some("tests".to_string()),
        }],
        decisions: vec![Decision {
            decision: "keep the trait object".to_string(),
            rationale: Some("callers are dynamic".to_string()),
        }],
        completed: vec![WorkItem::new("moved storage module")],
        pending: vec![WorkItem::new("update callers")],
        blockers: vec![],
        important_findings: vec![Finding {
            summary: "parser owns precedence".to_string(),
            paths: vec!["src/parser.rs".to_string()],
        }],
        failed_approaches: vec![Failure {
            approach: "generic backend".to_string(),
            reason: "object safety".to_string(),
        }],
        changed_paths: vec!["src/storage.rs".to_string()],
        verification: vec![VerificationSummary {
            kind: "tests".to_string(),
            ok: false,
            revision: revision("r2"),
            fresh: true,
            note: None,
        }],
        active_agents: vec![AgentSummary {
            agent: AgentId(2),
            task: "inspect callers".to_string(),
            state: "running".to_string(),
            summary: None,
        }],
        active_processes: vec![ProcessSummary {
            process: ProcessId(1),
            argv: vec!["cargo".to_string(), "watch".to_string()],
            state: "running".to_string(),
            exit_code: None,
        }],
        next_actions: vec!["join agent 2".to_string()],
        current_revision: revision("r2"),
        last_verified_revision: Some(revision("r1")),
    }
}

fn empty_checkpoint() -> ContextCheckpoint {
    ContextCheckpoint {
        task_id: TaskId(1),
        window: 1,
        objective: "inspect".to_string(),
        status: TaskStatus::Running,
        acceptance_criteria: vec![],
        decisions: vec![],
        completed: vec![],
        pending: vec![],
        blockers: vec![],
        important_findings: vec![],
        failed_approaches: vec![],
        changed_paths: vec![],
        verification: vec![],
        active_agents: vec![],
        active_processes: vec![],
        next_actions: vec![],
        current_revision: revision("r1"),
        last_verified_revision: None,
    }
}

#[test]
fn checkpoint_renders_semantic_state_not_a_transcript() {
    let rendered = full_checkpoint().render();
    for expected in [
        "context window 2",
        "objective: refactor storage",
        "status: running",
        "[unmet] tests pass",
        "keep the trait object — callers are dynamic",
        "parser owns precedence (src/parser.rs)",
        "generic backend: object safety",
        "tests: FAIL @ r2 — fresh",
        "agent 2 [running] inspect callers",
        "process 1 [running] cargo watch",
        "join agent 2",
    ] {
        assert!(rendered.contains(expected), "missing {expected:?} in:\n{rendered}");
    }
}

#[test]
fn empty_sections_are_omitted_rather_than_rendered_as_none() {
    let rendered = empty_checkpoint().render();
    assert!(!rendered.contains("pending:"));
    assert!(!rendered.contains("workers:"));
    assert!(rendered.contains("last verified revision: none"));
}

#[test]
fn statuses_are_labelled_and_only_settled_ones_are_inactive() {
    let all = [
        (TaskStatus::Queued, "queued", true),
        (TaskStatus::Running, "running", true),
        (TaskStatus::WaitingAgent, "waiting-agent", true),
        (TaskStatus::WaitingProcess, "waiting-process", true),
        (TaskStatus::WaitingUser, "waiting-user", true),
        (TaskStatus::Blocked, "blocked", true),
        (TaskStatus::Verifying, "verifying", true),
        (TaskStatus::Completed, "completed", false),
        (TaskStatus::Failed, "failed", false),
        (TaskStatus::Cancelled, "cancelled", false),
    ];
    for (status, label, active) in all {
        assert_eq!(status.label(), label);
        assert_eq!(status.is_active(), active);
    }
}

#[test]
fn an_empty_update_changes_nothing() {
    let mut goal = GoalState::new(TaskId(1), "refactor".to_string(), revision("r1"));
    let before = goal.clone();
    assert!(GoalUpdate::default().is_empty());
    goal.apply(GoalUpdate::default());
    assert_eq!(goal, before);
}

#[test]
fn updates_of_different_fields_commute() {
    let objective = GoalUpdate { objective: Some("ship".to_string()), ..GoalUpdate::default() };
    let next = GoalUpdate {
        next_actions: Some(vec!["merge".to_string()]),
        ..GoalUpdate::default()
    };
    let mut one = GoalState::new(TaskId(1), "refactor".to_string(), revision("r1"));
    let mut other = one.clone();
    one.apply(objective.clone());
    one.apply(next.clone());
    other.apply(next);
    other.apply(objective);
    assert_eq!(one, other);
    assert_eq!(one.objective, "ship");
}

#[test]
fn an_update_cannot_touch_what_the_runtime_derives() {
    let mut goal = GoalState::new(TaskId(7), "refactor".to_string(), revision("r1"));
    goal.apply(GoalUpdate { objective: Some("other".to_string()), ..GoalUpdate::default() });
    assert_eq!(goal.task_id, TaskId(7));
    assert_eq!(goal.current_revision, revision("r1"));
    assert_eq!(goal.last_verified_revision, None);
    assert!(!goal.verification_is_current());
    goal.last_verified_revision = Some(revision("r1"));
    assert!(goal.verification_is_current());
    goal.last_verified_revision = Some(revision("r0"));
    assert!(!goal.verification_is_current());
}

#[test]
fn every_objection_explains_itself() {
    let cases = vec![
        (FinishObjection::UnresolvedAgents { agents: vec![AgentId(1), AgentId(2)] }, "1, 2", false),
        (FinishObjection::RunningProcesses { processes: vec![ProcessId(4)] }, "4", false),
        (
            FinishObjection::OutcomeUnknownExecutions { executions: vec![ExecutionId(9)] },
            "9",
            false,
        ),
        (FinishObjection::FailedVerification { kinds: vec!["lint".to_string()] }, "lint", false),
        (
            FinishObjection::StaleVerification { current: revision("r9"), verified: None },
            "r9",
            false,
        ),
        (FinishObjection::PendingWork { items: vec!["docs".to_string()] }, "docs", true),
        (FinishObjection::UnmetCriteria { criteria: vec!["fast".to_string()] }, "fast", true),
        (FinishObjection::UnintegratedWorkspaces { workspaces: vec![5] }, "5", false),
        (FinishObjection::OpenConflict { paths: vec!["a.rs".to_string()] }, "a.rs", false),
    ];
    for (objection, named, overridable) in cases {
        let explanation = objection.explain();
        assert!(explanation.contains(named), "{named} is not named in {explanation}");
        assert_eq!(objection.is_overridable(), overridable, "{explanation}");
        assert_eq!(FinishVerdict::evaluate(vec![objection], true).accepted, overridable);
    }
    assert!(FinishVerdict::accepted().accepted);
    assert!(FinishVerdict::evaluate(vec![], false).accepted);
}

#[test]
fn the_rendered_checkpoint_is_exact() {
    let rendered = empty_checkpoint().render();
    assert_eq!(rendered.matches("objective: inspect").count(), 1);
    assert!(rendered.contains("status: running"));
    assert!(rendered.contains("r1"));
}
