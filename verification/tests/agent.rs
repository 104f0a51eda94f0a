//! The loop of a task, with a scripted model and a stand-in for the engine that
//! runs programs.
use mh::agent::{
    accepted_finish, action_fingerprint, authorize_prelude, compact_value, drain_controls,
    fingerprint_text, normalize_source, outcome_text, output_kind, prelude_answered,
    translate_ptc_events, AgentControl, AgentError, AgentEvent, Effect, PreludeRejection,
    PreludeStep, Step, TaskOutcome,
};
use mh::context::ContextCompiler;
use mh::delegation::{
    AgentAccess, AgentSpawnOptions, AgentState, DelegateResult, DelegationBudget,
};
use mh::goal::{
    Finding, FinishObjection, FinishRequest, FinishVerdict, GoalState, GoalUpdate, TaskStatus,
    WorkItem,
};
use mh::host;
use mh::identity::{AgentId, ExecutionId, ProcessId, RevisionId, TaskId};
use mh::json::Json;
use mh::model::{
    GenerationStop, GenerationStopReason, ModelError, ModelOutput, ProgramLanguage,
};
use mh::process::{ProcessSnapshot, ProcessState};
use mh::ptc::prelude::{Prelude, PreludeOrigin};
use mh::ptc::runtime::{
    tool_effects, HostCallOutcome, PtcEvent, PtcExecution, PtcOutcome,
};
use mh::ptc::trust::{Trust, TrustDecision};
use mh::runtime::{cancel_task, steer_task, Slots};
use mh::session::{AgentRecord, EventRecord, SessionError, SessionEvent, TaskView};
use mh::turns::{
    cleans_up, deliver_message, message_target, prelude_loaded, resume_task, run_completed,
    start_detached_task, take_control, tell_recovered, TaskRun,
};

fn program(source: &str) -> ModelOutput {
    ModelOutput::Program {
        language: ProgramLanguage::JavaScript,
        source: source.to_string(),
    }
}

fn finish(summary: &str) -> ModelOutput {
    program(&format!("return finish({{ summary: \"{summary}\", force: true }});"))
}

/// What a scripted model does on its turn.
enum Answer {
    Gives(ModelOutput),
    /// Steering arrives while it works, which stops it.
    IsSteered(String),
}

struct Scene {
    run: TaskRun,
    compiler: ContextCompiler,
    view: TaskView,
    journal: Vec<EventRecord>,
    told: Vec<AgentEvent>,
    script: Vec<Answer>,
    files: Vec<(String, String)>,
    slots: Slots,
}

fn view_of(task: u64, objective: &str) -> TaskView {
    TaskView {
        task_id: TaskId(task),
        agent: AgentId(0),
        goal: GoalState::new(
            TaskId(task),
            objective.to_string(),
            RevisionId("r1".to_string()),
        ),
        window: 0,
        turns_in_window: 0,
        window_start_seq: 0,
        checkpoint: None,
        latest_user_message: None,
        changed_paths: vec![],
        evidence: vec![],
        agents: vec![],
        processes: vec![],
        prelude: None,
        base_revision: None,
        pending_steering: vec![],
        cancel_requested: false,
        outcome_unknown_executions: vec![],
        unintegrated_workspaces: vec![],
        open_conflict_paths: vec![],
        unresolved_recovery_workspaces: vec![],
    }
}

impl Scene {
    fn new(objective: &str, max_turns: usize, script: Vec<ModelOutput>) -> Scene {
        let mut script: Vec<Answer> = script.into_iter().map(Answer::Gives).collect();
        script.reverse();
        let mut scene = Scene {
            run: TaskRun::new(TaskId(1), AgentId(0), 16, max_turns),
            compiler: ContextCompiler::default(),
            view: view_of(1, objective),
            journal: vec![],
            told: vec![],
            script,
            files: vec![],
            slots: Slots::new(1),
        };
        scene.apply(deliver_message(TaskId(1), objective));
        scene
    }

    fn append(&mut self, event: SessionEvent) {
        let seq = self.journal.len() as u64 + 1;
        match &event {
            SessionEvent::Compacted { window, checkpoint, .. } => {
                self.view.window = window + 1;
                self.view.checkpoint = checkpoint.clone();
                self.view.window_start_seq = seq + 1;
            }
            SessionEvent::SteeringQueued { content, .. } => {
                self.view.pending_steering.push(content.clone())
            }
            SessionEvent::SteeringApplied { .. } => {
                self.view.pending_steering.remove(0);
            }
            SessionEvent::TaskCancelRequested { .. } => self.view.cancel_requested = true,
            SessionEvent::TaskCompleted { .. } => self.view.goal.status = TaskStatus::Completed,
            SessionEvent::GoalUpdated { update, .. } => self.view.goal.apply(update.clone()),
            _ => {}
        }
        self.journal.push(EventRecord { seq, event });
    }

    fn apply(&mut self, effects: Vec<Effect>) {
        for effect in effects {
            match effect {
                Effect::Journal(event) => self.append(event),
                Effect::Tell(event) => self.told.push(event),
                Effect::SetStatus { status, .. } => self.view.goal.status = status,
                Effect::Interrupt => self.view.goal.status = TaskStatus::Cancelled,
            }
        }
    }

    /// Runs a program: what it does shows in its text.
    fn execute(&mut self, source: &str, at: PtcExecution) -> (Json, Vec<PtcEvent>) {
        let mut events = vec![];
        let mut call = |name: &str, ok: bool| {
            let call_id = events.len() as u64 + 1;
            events.push(PtcEvent::HostCallStarted {
                task_id: at.task_id,
                execution_id: at.execution_id,
                call_id,
                name: name.to_string(),
                args_hash: 0,
            });
            events.push(PtcEvent::HostCallCompleted {
                task_id: at.task_id,
                execution_id: at.execution_id,
                call_id,
                name: name.to_string(),
                args_hash: 0,
                effects: tool_effects(name),
                outcome: if ok { HostCallOutcome::Succeeded } else { HostCallOutcome::Error },
                ok,
                duration_ms: 1,
                result_ids: vec![],
                paths: vec![],
            });
        };
        let value = if source.contains("finish(") {
            let summary = source.split("summary: \"").nth(1).unwrap();
            let request = FinishRequest {
                summary: summary.split('"').next().unwrap().to_string(),
                unresolved: vec![],
                evidence: Json::null(),
                force: source.contains("force: true"),
            };
            let (verdict, completed) = host::finish(&self.view, &request);
            self.append(SessionEvent::FinishProposed { task_id: at.task_id, request, verdict });
            if let Some(summary) = completed {
                self.append(SessionEvent::TaskCompleted { task_id: at.task_id, summary });
            }
            "{\"finish\":true}".to_string()
        } else if source.contains("agent_spawn(") {
            let options = AgentSpawnOptions {
                task: "inspect".to_string(),
                access: Some(AgentAccess::Read),
                profile: None,
                context: Json::null(),
            };
            let budget = DelegationBudget::default();
            let (access, profile) =
                host::agent_spawn(at.agent, &options, &mut self.slots, &budget).unwrap();
            let revision = RevisionId("r1".to_string());
            let spawned = host::spawned_event(
                &at, AgentId(1), TaskId(2), &options, access, profile, &revision, None,
            );
            self.append(spawned);
            self.view.agents.push(AgentRecord {
                agent: AgentId(1),
                task_id: TaskId(2),
                objective: options.task,
                access,
                profile: None,
                state: AgentState::Running,
                context: Json::null(),
                result: None,
                inbox: vec![],
                isolated_workspace: None,
            });
            "{\"spawned\":1}".to_string()
        } else if source.contains("agent_join(") {
            self.view.agents[0].state = AgentState::Completed;
            self.view.agents[0].result = Some(DelegateResult {
                task_id: TaskId(2),
                agent: AgentId(1),
                ok: true,
                summary: "inspected".to_string(),
                base_revision: RevisionId("r1".to_string()),
                final_revision: RevisionId("r1".to_string()),
                changed: false,
                workspace: None,
                evidence: vec![],
                findings: Json::null(),
            });
            "{\"joined\":true}".to_string()
        } else if source.contains("goal(") {
            self.append(SessionEvent::GoalUpdated {
                task_id: at.task_id,
                update: GoalUpdate {
                    findings: Some(vec![Finding {
                        summary: "EARLY_FINDING".to_string(),
                        paths: vec![],
                    }]),
                    pending: Some(vec![WorkItem::new("finish up")]),
                    ..GoalUpdate::default()
                },
            });
            "{\"ok\":true}".to_string()
        } else if source.contains("write(") {
            call("write", true);
            let name = source.split('"').nth(1).unwrap().to_string();
            let content = source.split('"').nth(3).unwrap().to_string();
            self.files.push((name, content));
            "null".to_string()
        } else {
            call("read", false);
            "{\"error\":\"read: no such file\"}".to_string()
        };
        (Json { text: value }, events)
    }

    fn drive(&mut self, controls: Vec<AgentControl>) -> Result<TaskOutcome, AgentError> {
        let mut controls = Some(controls);
        let effects = self.run.open_window(self.view.window);
        self.apply(effects);
        loop {
            if let Some((effects, error)) = self.run.check_window(self.view.window) {
                self.apply(effects);
                return Err(error);
            }
            while self.run.next_turn() {
                let pending = self.view.pending_steering.clone();
                let (effects, mut step) = self.run.open_turn(
                    controls.take().unwrap_or_default(),
                    &pending,
                    &vec![],
                    self.view.cancel_requested,
                    false,
                );
                self.apply(effects);
                loop {
                    let (effects, next) = match step {
                        Step::Turn | Step::Rollover => break,
                        Step::Done(outcome) => return Ok(outcome),
                        Step::Failed(error) => return Err(error),
                        Step::Compile => {
                            let context = self.compiler.compile(&self.view, &self.journal, None);
                            let full = context.map(|c| self.compiler.needs_rollover(&c));
                            self.run.compiled(full)
                        }
                        Step::Generate => match self.script.pop() {
                            Some(Answer::Gives(output)) => {
                                self.run.generated(Ok(output), vec![], false)
                            }
                            Some(Answer::IsSteered(content)) => {
                                let mut steering = vec![];
                                let mut stop = GenerationStop::new(false);
                                let control = AgentControl::Steer(content);
                                self.told.extend(take_control(control, &mut steering, &mut stop));
                                let stopped = ModelError::Stopped(stop.reason().unwrap());
                                self.run.generated(Err(stopped), steering, false)
                            }
                            None => {
                                let error = ModelError::Protocol("script exhausted".to_string());
                                self.run.generated(Err(error), vec![], false)
                            }
                        },
                        Step::Confirm { source } => self.run.confirm(source, vec![], false),
                        Step::Execute { source } => {
                            let recorded = self.view.goal.current_revision.clone();
                            let start = self.run.start_revision(None, &recorded);
                            let (effects, at) = self.run.launch(&source, ExecutionId(1), start);
                            self.apply(effects);
                            let (value, events) = self.execute(&source, at);
                            self.told.extend(translate_ptc_events(&events));
                            let outcome = PtcOutcome::Completed;
                            self.told.push(run_completed(&outcome, events.len() / 2, 1));
                            let done = accepted_finish(&self.journal, TaskId(1));
                            self.run.executed(&source, &outcome, &value, done)
                        }
                    };
                    self.apply(effects);
                    step = next;
                }
            }
            let effects = self.run.compact(&self.view);
            self.apply(effects);
            let effects = self.run.open_window(self.view.window);
            self.apply(effects);
        }
    }

    fn completed(&self) -> bool {
        self.journal.iter().any(|r| matches!(r.event, SessionEvent::TaskCompleted { .. }))
    }
}

#[test]
fn text_output_does_not_complete_the_task() {
    let mut scene = Scene::new(
        "write",
        24,
        vec![
            program("write(\"a.txt\", \"hello\");"),
            ModelOutput::Text("Implemented most of it.".to_string()),
        ],
    );
    let outcome = scene.drive(vec![]).unwrap();
    assert_eq!(outcome, TaskOutcome::AwaitingUser("Implemented most of it.".to_string()));
    assert!(!outcome.is_complete());
    assert_eq!(scene.files, vec![("a.txt".to_string(), "hello".to_string())]);

    assert_eq!(scene.view.status(), TaskStatus::WaitingUser);
    assert!(
        scene.view.status().is_active(),
        "a progress report must leave the task active"
    );
    assert!(!scene.completed(), "text must not append TaskCompleted");
}

#[test]
fn only_finish_completes_the_task() {
    let mut scene = Scene::new(
        "work",
        24,
        vec![ModelOutput::Text("Still working.".to_string()), finish("all done")],
    );
    let parked = scene.drive(vec![]).unwrap();
    assert!(!parked.is_complete());

    // A follow-up message continues the same durable task.
    let target = message_target(Some((TaskId(1), scene.view.status())));
    assert_eq!(target, Some(TaskId(1)), "a follow-up must not start a second task");
    scene.apply(deliver_message(TaskId(1), "continue"));
    let completed = scene.drive(vec![]).unwrap();
    assert_eq!(completed, TaskOutcome::Completed("all done".to_string()));
    assert_eq!(scene.view.status(), TaskStatus::Completed);
    let none = scene.view.agents.clone();
    assert_eq!(cleans_up(TaskId(1), &Ok(completed), &none), vec![TaskId(1)]);
    assert_eq!(cleans_up(TaskId(1), &Ok(parked), &none), vec![]);
}

#[test]
fn a_full_window_rolls_over_instead_of_ending_the_task() {
    let mut outputs = vec![program(
        "return goal({ findings: [{ summary: \"EARLY_FINDING\" }], pending: [{ title: \"finish up\" }] });",
    )];
    // Fill two windows of two turns each, then finish in the third.
    for _ in 0..4 {
        outputs.push(program("return read(\"missing\");"));
    }
    outputs.push(finish("converged"));
    let mut scene = Scene::new("long task", 2, outputs);
    let outcome = scene.drive(vec![]).unwrap();
    assert!(outcome.is_complete());
    let windows: Vec<u32> = scene
        .told
        .iter()
        .filter_map(|event| match event {
            AgentEvent::ContextWindowStarted { window } => Some(*window),
            _ => None,
        })
        .collect();
    assert!(windows.len() >= 3, "expected at least two rollovers, saw windows {windows:?}");
    assert!(scene.view.window >= 2, "task crossed multiple context windows");
    assert_eq!(scene.view.goal.objective, "long task", "the goal survives rollover");
    let checkpoint = scene.view.checkpoint.as_ref().expect("a rolled-over task has a checkpoint");
    assert!(
        checkpoint.important_findings.iter().any(|finding| finding.summary == "EARLY_FINDING"),
        "an early finding must survive every rollover"
    );
    assert!(
        scene.journal.iter().all(|r| r.event.task_id() == Some(TaskId(1))),
        "rollover keeps the same durable task id"
    );
}

#[test]
fn finish_is_refused_while_a_worker_is_unresolved() {
    let mut scene = Scene::new(
        "orchestrate",
        24,
        vec![
            program(
                "var a = agent_spawn({ task: \"inspect\", access: \"read\" });\nreturn { spawned: a.agent, state: a.state };",
            ),
            // The worker is still live here, so this must be refused.
            program("return finish({ summary: \"early\", force: true });"),
            program(
                "var joined = agent_join(1);\nreturn { joined: joined.ok, summary: joined.summary };",
            ),
            finish("done"),
        ],
    );
    let outcome = scene.drive(vec![]).unwrap();
    assert!(outcome.is_complete());

    let verdicts: Vec<&FinishVerdict> = scene
        .journal
        .iter()
        .filter_map(|record| match &record.event {
            SessionEvent::FinishProposed { verdict, .. } => Some(verdict),
            _ => None,
        })
        .collect();
    assert_eq!(verdicts.len(), 2, "one refusal, then one acceptance");
    assert!(
        !verdicts[0].accepted
            && verdicts[0]
                .objections
                .iter()
                .any(|objection| matches!(objection, FinishObjection::UnresolvedAgents { .. })),
        "force must not complete over a live worker: {:?}",
        verdicts[0]
    );
    assert!(verdicts[1].accepted);

    // What the completed task and its worker held in isolation goes.
    assert_eq!(
        cleans_up(TaskId(1), &Ok(outcome), &scene.view.agents),
        vec![TaskId(1), TaskId(2)]
    );

    // The joined worker settled as its own durable task.
    let worker = &scene.view.agents[0];
    assert_eq!(worker.state, AgentState::Completed);
    assert_eq!(worker.result.as_ref().unwrap().summary, "inspected");
    let mut tasks: Vec<TaskId> =
        scene.journal.iter().filter_map(|r| r.event.task_id()).collect();
    tasks.sort_by_key(|t| t.0);
    tasks.dedup();
    assert_eq!(tasks.len(), 2, "worker owns a durable task");
}

#[test]
fn steering_during_inference_discards_stale_program() {
    let mut scene = Scene::new("start", 24, vec![]);
    // The model is about to answer `write("stale.txt", "bad");` when it is steered.
    scene.script = vec![
        Answer::Gives(ModelOutput::Text("done".to_string())),
        Answer::IsSteered("do not write".to_string()),
    ];
    let outcome = scene.drive(vec![]).unwrap();
    assert_eq!(outcome.message(), "done", "steering supersedes the stale program");
    assert!(scene.files.is_empty());
    assert!(
        scene.journal.iter().any(|r| matches!(r.event, SessionEvent::ModelSuperseded { .. }))
    );
}

#[test]
fn an_answer_that_steering_overtook_is_not_run() {
    let mut run = TaskRun::new(TaskId(1), AgentId(0), 16, 24);
    let stale = program("write(\"stale.txt\", \"bad\");");
    let (effects, step) = run.generated(Ok(stale), vec!["do not write".to_string()], false);
    assert_eq!(step, Step::Turn);
    assert_eq!(
        effects[0],
        Effect::Journal(SessionEvent::ModelSuperseded { task_id: TaskId(1) })
    );
    let (_, step) = run.confirm(
        "write(\"stale.txt\", \"bad\");".to_string(),
        vec![AgentControl::Steer("no".to_string())],
        false,
    );
    assert_eq!(step, Step::Turn);
    let (effects, step) =
        run.confirm("return 1;".to_string(), vec![AgentControl::Interrupt], false);
    assert_eq!(step, Step::Failed(AgentError::Cancelled));
    assert_eq!(effects, vec![Effect::Interrupt]);
}

#[test]
fn durable_steering_from_another_process_is_applied() {
    let mut scene = Scene::new(
        "detached",
        24,
        vec![program("return read(\"missing\");"), finish("done")],
    );
    // Start the task, park it, then steer it as `mh steer` would.
    scene.apply(start_detached_task(TaskId(1), "detached"));
    assert_eq!(scene.view.status(), TaskStatus::Queued);
    let steering =
        steer_task(Some((TaskId(1), scene.view.status())), "also check the docs").unwrap();
    scene.append(steering);
    assert_eq!(resume_task(Some((TaskId(1), scene.view.status()))), Ok(TaskId(1)));
    let outcome = scene.drive(vec![]).unwrap();
    assert!(outcome.is_complete());
    assert!(
        scene.journal.iter().any(|record| matches!(
            &record.event,
            SessionEvent::SteeringApplied { content, .. } if content == "also check the docs"
        )),
        "durable steering must be applied by the running task"
    );
}

#[test]
fn durable_cancellation_stops_a_running_task() {
    let mut scene = Scene::new("cancel me", 24, vec![finish("never")]);
    let request = cancel_task(Some((TaskId(1), scene.view.status()))).unwrap();
    scene.append(request);
    let error = scene.drive(vec![]).unwrap_err();
    assert!(matches!(error, AgentError::Cancelled));
    assert_eq!(scene.view.status(), TaskStatus::Cancelled);
}

#[test]
fn translates_runtime_events_into_session_and_agent_events() {
    let mut scene = Scene::new(
        "inspect",
        24,
        vec![program("return read(\"missing\");"), finish("done")],
    );
    scene.drive(vec![]).unwrap();
    let emitted = &scene.told;
    assert!(emitted.iter().any(
        |event| matches!(event, AgentEvent::PtcHostCallStarted { name, .. } if name == "read")
    ));
    assert!(emitted.iter().any(
        |event| matches!(event, AgentEvent::PtcHostCallCompleted { name, .. } if name == "read")
    ));
    assert!(emitted.iter().any(|event| matches!(event, AgentEvent::TaskCompleted { .. })));
}

#[test]
fn third_identical_action_is_not_executed() {
    let same = "return read(\"missing\");";
    let mut scene = Scene::new(
        "inspect",
        24,
        vec![program(same), program(same), program(same), finish("different")],
    );
    assert!(scene.drive(vec![]).unwrap().is_complete());
    assert_eq!(
        scene.told.iter().filter(|event| matches!(event, AgentEvent::PtcStarted)).count(),
        3,
        "two executions of the repeat plus the finish program"
    );
    assert!(
        scene
            .told
            .iter()
            .any(|event| matches!(event, AgentEvent::RepeatedActionDetected { .. }))
    );
}

#[test]
fn context_overflow_propagates() {
    let mut scene = Scene::new("too large", 24, vec![]);
    scene.compiler.max_tokens = 1;
    assert!(matches!(scene.drive(vec![]), Err(AgentError::Context(_))));
}

#[test]
fn a_task_that_does_not_converge_fails() {
    let mut scene = Scene::new("loop", 1, (0..9).map(|_| program("return 1;")).collect());
    scene.run.max_windows = 2;
    assert_eq!(scene.drive(vec![]), Err(AgentError::WindowLimit(2)));
    assert_eq!(scene.view.status(), TaskStatus::Failed);
    assert_eq!(
        AgentError::WindowLimit(2).message(),
        "task did not converge within 2 context windows"
    );
}

#[test]
fn controls_are_taken_in_order() {
    let mut scene = Scene::new("steer", 24, vec![finish("done")]);
    let outcome = scene
        .drive(vec![
            AgentControl::Steer("first".to_string()),
            AgentControl::Steer("second".to_string()),
        ])
        .unwrap();
    assert!(outcome.is_complete());
    let applied: Vec<&str> = scene
        .told
        .iter()
        .filter_map(|event| match event {
            AgentEvent::SteeringApplied { content } => Some(content.as_str()),
            _ => None,
        })
        .collect();
    assert_eq!(applied, vec!["first", "second"]);
    let (steering, interrupted) = drain_controls(vec![
        AgentControl::Steer("a".to_string()),
        AgentControl::Interrupt,
        AgentControl::Steer("b".to_string()),
    ]);
    assert_eq!(steering, vec!["a".to_string(), "b".to_string()]);
    assert!(interrupted);
}

#[test]
fn an_interrupted_model_cancels_the_loop() {
    let mut run = TaskRun::new(TaskId(1), AgentId(0), 16, 24);
    let stopped = ModelError::Stopped(GenerationStopReason::UserInterrupt);
    let (effects, step) = run.generated(Err(stopped), vec![], false);
    assert!(effects.is_empty());
    assert_eq!(step, Step::Failed(AgentError::Cancelled));
    let superseded = ModelError::Stopped(GenerationStopReason::Superseded);
    let (_, step) = run.generated(Err(superseded.clone()), vec![], false);
    assert_eq!(step, Step::Failed(AgentError::Model(superseded)));
}

#[test]
fn a_workers_text_settles_it_instead_of_parking() {
    let mut run = TaskRun::new(TaskId(2), AgentId(1), 4, 16);
    let answer = ModelOutput::Text("inspected".to_string());
    let (effects, step) = run.generated(Ok(answer), vec![], false);
    assert_eq!(step, Step::Done(TaskOutcome::AwaitingUser("inspected".to_string())));
    assert!(!effects.iter().any(|e| matches!(e, Effect::SetStatus { .. })));
    assert_eq!(
        run.start_revision(
            Some(RevisionId("seen".to_string())),
            &RevisionId("recorded".to_string())
        ),
        RevisionId("recorded".to_string())
    );
}

#[test]
fn settled_tasks_are_not_resumed() {
    assert_eq!(
        resume_task(Some((TaskId(4), TaskStatus::Completed))),
        Err(AgentError::Session(SessionError::State("task 4 already completed".to_string())))
    );
    assert_eq!(
        resume_task(None),
        Err(AgentError::Session(SessionError::State("no task to resume".to_string())))
    );
    assert_eq!(message_target(Some((TaskId(4), TaskStatus::Failed))), None);
}

fn workspace_prelude() -> Prelude {
    Prelude {
        path: "/ws/.mh/prelude.js".to_string(),
        source: "//! f() -> 1\nfunction f() { return 1; }\n".to_string(),
        origin: PreludeOrigin::Workspace,
    }
}

#[test]
fn a_workspace_prelude_runs_only_with_trust() {
    let prelude = workspace_prelude();
    assert_eq!(authorize_prelude(&prelude, Some(Trust::Trusted), false), PreludeStep::Use);
    assert_eq!(authorize_prelude(&prelude, Some(Trust::Unknown), true), PreludeStep::Ask);
    for (store, reason) in [
        (Some(Trust::Unknown), PreludeRejection::CannotConfirm),
        (Some(Trust::Rejected), PreludeRejection::PreviouslyRejected),
        (None, PreludeRejection::NoTrustStore),
    ] {
        assert_eq!(authorize_prelude(&prelude, store, false), PreludeStep::Reject(reason));
        assert!(!reason.explain().is_empty());
    }
    let user = Prelude { origin: PreludeOrigin::User, ..prelude };
    assert_eq!(authorize_prelude(&user, None, false), PreludeStep::Use);
    assert_eq!(prelude_answered(TrustDecision::Trusted), PreludeStep::Use);
    assert_eq!(
        prelude_answered(TrustDecision::Rejected),
        PreludeStep::Reject(PreludeRejection::Declined)
    );
}

#[test]
fn a_loaded_prelude_is_journaled_with_its_hash() {
    let prelude = workspace_prelude();
    let effects = prelude_loaded(&prelude);
    assert!(matches!(
        &effects[0],
        Effect::Journal(SessionEvent::PreludeLoaded { prelude: id, described: true, .. })
            if *id == prelude.identity()
    ));
    assert_eq!(
        effects[1],
        Effect::Tell(AgentEvent::PreludeLoaded {
            path: "/ws/.mh/prelude.js".to_string(),
            described: true
        })
    );
}

#[test]
fn recovered_processes_are_told_as_over() {
    let snapshot = ProcessSnapshot {
        id: ProcessId(3),
        owner_task: TaskId(1),
        owner_agent: AgentId(0),
        argv: vec![],
        cwd: String::new(),
        label: None,
        pid: None,
        state: ProcessState::Orphaned,
        started_at_ms: 0,
        exited_at_ms: None,
        exit_code: None,
        stdout_bytes: 0,
        stderr_bytes: 0,
        pid_alive: Some(false),
    };
    assert_eq!(
        tell_recovered(&vec![snapshot]),
        vec![Effect::Tell(AgentEvent::ProcessExited { process: ProcessId(3), exit_code: None })]
    );
}

#[test]
fn actions_are_told_apart_by_program_outcome_and_value() {
    assert_eq!(normalize_source("  return\n\tread( 1 ); "), "return read( 1 );");
    let value = Json { text: "{ \"a\" : 1 }".to_string() };
    assert_eq!(compact_value(&value), "{\"a\":1}");
    let long = Json { text: format!("\"{}\"", "x".repeat(5000)) };
    assert_eq!(compact_value(&long).len(), 4096);

    let one = action_fingerprint("return 1;", &PtcOutcome::Completed, &value);
    assert_eq!(one.len(), 16);
    assert_eq!(one, action_fingerprint("return 1;", &PtcOutcome::Completed, &value));
    assert_ne!(one, action_fingerprint("return 2;", &PtcOutcome::Completed, &value));
    assert_ne!(one, action_fingerprint("return 1;", &PtcOutcome::Interrupted, &value));
    assert_ne!(one, action_fingerprint("return 1;", &PtcOutcome::Completed, &Json::null()));
    assert_ne!(fingerprint_text("a"), fingerprint_text("b"));
    assert!(fingerprint_text("a").chars().all(|c| c.is_ascii_hexdigit()));
}

#[test]
fn outcomes_and_answers_have_names() {
    assert_eq!(outcome_text(&PtcOutcome::Completed), "Completed");
    assert_eq!(
        outcome_text(&PtcOutcome::BudgetExceeded("tool call budget")),
        "BudgetExceeded(\"tool call budget\")"
    );
    assert_eq!(outcome_text(&PtcOutcome::Failed("a \"b\"".to_string())), "Failed(\"a \\\"b\\\"\")");
    assert_eq!(outcome_text(&PtcOutcome::Interrupted), "Interrupted");
    assert_eq!(output_kind(&ModelOutput::Text(String::new())), "text");
    assert_eq!(output_kind(&program("x")), "program");
}
