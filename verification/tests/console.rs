use mh::agent::{AgentError, AgentEvent, PreludeRejection, TaskOutcome};
use mh::cli::{parse_command, summarize, CliError, Command, Resource};
use mh::console::{
    admission_path, attach_note, cancel_receipt, cmd_inspect, cmd_tasks, confirm_prelude,
    detached_failure, detached_lines, not_admitted, prelude_notice, recovery_note, repl,
    repl_root_task, report_worker, steering_receipt, task_log_path, wait_for_detached_admission,
    AdmissionLook, AdmissionStep, ConsoleStep, Receipt, Shared, WorkerEnded, ADMITTED,
};
use mh::display::{
    print_event, print_session, print_task_report, print_task_view, report_outcome, EventPrinter,
    SessionSummary,
};
use mh::goal::{AcceptanceCriterion, Blocker, GoalState, TaskStatus, WorkItem};
use mh::identity::{AgentId, ExecutionId, ProcessId, RevisionId, TaskId};
use mh::model::ModelEvent;
use mh::ptc::prelude::{Prelude, PreludeOrigin};
use mh::ptc::trust::TrustDecision;
use mh::runtime::{task_report, TaskReport};
use mh::session::{EventRecord, ProcessRecord, SessionError, SessionEvent, TaskView};

fn look(message: Option<&str>, exited: Option<&str>, timed_out: bool) -> AdmissionLook {
    AdmissionLook {
        message: message.map(|m| m.to_string()),
        exited: exited.map(|m| m.to_string()),
        timed_out,
    }
}

#[test]
fn detached_admission_waits_for_a_complete_frame() {
    let partial = look(Some("admitted"), None, false);
    assert_eq!(wait_for_detached_admission(&partial), AdmissionStep::Sleep);
    let whole = look(Some("admitted\n"), None, false);
    assert_eq!(wait_for_detached_admission(&whole), AdmissionStep::Admitted);
    assert_eq!(ADMITTED, "admitted\n");
}

#[test]
fn an_admission_that_fails_says_why() {
    let failed = |step: AdmissionStep| match step {
        AdmissionStep::Failed(error) => error.message(),
        other => panic!("the admission failed: {other:?}"),
    };
    assert_eq!(
        failed(wait_for_detached_admission(&look(Some("no session\n"), None, false))),
        "detached admission failed: no session"
    );
    assert_eq!(
        failed(wait_for_detached_admission(&look(Some("admit"), Some("exit status: 1"), true))),
        "detached runner exited before admission (exit status: 1)"
    );
    assert_eq!(
        failed(wait_for_detached_admission(&look(None, None, true))),
        "timed out waiting for detached runner admission"
    );
    // A whole message counts although the run has exited since.
    assert_eq!(
        wait_for_detached_admission(&look(Some("admitted\n"), Some("exit status: 0"), true)),
        AdmissionStep::Admitted
    );
    assert_eq!(
        not_admitted(TaskId(4), &CliError::Cancelled).message(),
        "task 4 queued but not admitted: cancelled"
    );
}

fn parse(args: &[&str]) -> Result<Command, String> {
    parse_command(&args.iter().map(|a| a.to_string()).collect()).map_err(|e| e.message())
}

#[test]
fn commands_are_read_from_the_command_line() {
    assert_eq!(parse(&[]), Ok(Command::Repl));
    assert_eq!(parse(&["-h"]), Ok(Command::Help));
    assert_eq!(parse(&["--version"]), Ok(Command::Version));
    assert_eq!(
        parse(&["run", "fix", "--detach", "it"]),
        Ok(Command::Run { task: "fix it".to_string(), detach: true })
    );
    assert_eq!(
        parse(&["fix", "the", "tests"]),
        Ok(Command::Run { task: "fix the tests".to_string(), detach: false })
    );
    assert_eq!(parse(&["resume"]), Ok(Command::Resume(None)));
    assert_eq!(parse(&["resume", "7"]), Ok(Command::Resume(Some(TaskId(7)))));
    assert_eq!(parse(&["attach", "7"]), Ok(Command::Attach(TaskId(7))));
    assert_eq!(parse(&["tasks"]), Ok(Command::Tasks));
    assert_eq!(
        parse(&["tasks", "please"]),
        Ok(Command::Run { task: "tasks please".to_string(), detach: false })
    );
    assert_eq!(parse(&["inspect", "+7"]), Ok(Command::Inspect(TaskId(7))));
    assert_eq!(
        parse(&["steer", "1", "look", "here"]),
        Ok(Command::Steer { task: TaskId(1), message: "look here".to_string() })
    );
    assert_eq!(parse(&["cancel"]), Ok(Command::Cancel(None)));
    assert_eq!(
        parse(&["recover", "1", "process", "9", "it", "died"]),
        Ok(Command::Recover {
            task: TaskId(1),
            resource: Resource::Process(ProcessId(9)),
            reason: "it died".to_string()
        })
    );
    assert_eq!(parse(&["sessions"]), Ok(Command::Sessions));
    assert_eq!(parse(&["__run-detached", "3"]), Ok(Command::Detached(TaskId(3))));
}

#[test]
fn a_wrong_command_line_is_explained() {
    for (args, message) in [
        (vec!["run", " "], "run needs a task"),
        (vec!["resume", "1", "2"], "resume takes at most one task id"),
        (vec!["attach"], "attach needs one task id"),
        (vec!["inspect", "x"], "`x` is not a task id"),
        (vec!["steer", "1"], "steer needs a task id and a message"),
        (vec!["cancel", "1", "2"], "cancel takes at most one task id"),
        (vec!["recover", "1", "process", "9"], "recover needs an audit reason"),
        (
            vec!["recover", "1"],
            "recover needs <task-id> <execution|process> <resource-id> <reason>",
        ),
        (vec!["recover", "1", "process", "-", "why"], "`-` is not a resource id"),
        (
            vec!["recover", "1", "file", "9", "why"],
            "recover resource kind must be `execution` or `process`",
        ),
        (vec!["__run-detached"], "__run-detached needs one task id"),
    ] {
        assert_eq!(parse(&args), Err(message.to_string()));
    }
}

#[test]
fn errors_have_messages_and_exit_codes() {
    assert_eq!(CliError::NoTask(3).message(), "no task 3 in this session");
    assert_eq!(CliError::Cancelled.exit_code(), 130);
    assert_eq!(CliError::Usage("x".to_string()).exit_code(), 1);
    assert_eq!(CliError::of_agent(AgentError::Cancelled), CliError::Cancelled);
    assert_eq!(
        CliError::of_agent(AgentError::WindowLimit(2)).message(),
        "task did not converge within 2 context windows"
    );
}

#[test]
fn a_summary_is_one_line() {
    assert_eq!(summarize("  fix it  ", 64), "fix it");
    assert_eq!(summarize("first\nsecond", 64), "first …");
    assert_eq!(summarize("abcdef", 3), "abc …");
    assert_eq!(summarize("", 3), "");
    assert_eq!(summarize("only\n", 64), "only");
}

#[test]
fn console_lines_mean_what_the_agent_allows() {
    assert_eq!(repl("   ", true), ConsoleStep::Prompt);
    assert_eq!(repl("/quit", false), ConsoleStep::Quit);
    assert_eq!(repl(" /exit ", true), ConsoleStep::Quit);
    assert_eq!(repl("/resume", true), ConsoleStep::AlreadyRunning);
    assert_eq!(repl("/resume", false), ConsoleStep::Resume);
    assert_eq!(repl("fix it", false), ConsoleStep::Start("fix it".to_string()));
    assert_eq!(repl("no, that one", true), ConsoleStep::Steer("no, that one".to_string()));
    for active in [false, true] {
        assert_eq!(repl("/help", active), ConsoleStep::Shared(Shared::Help));
        assert_eq!(
            repl("/tasks", active),
            ConsoleStep::Shared(Shared::Run(Ok(Command::Tasks)))
        );
        assert_eq!(
            repl("/session", active),
            ConsoleStep::Shared(Shared::Run(Ok(Command::Sessions)))
        );
        assert_eq!(repl("/inspect", active), ConsoleStep::Shared(Shared::InspectRoot));
        assert_eq!(
            repl("/inspect  4", active),
            ConsoleStep::Shared(Shared::Run(Ok(Command::Inspect(TaskId(4)))))
        );
        assert_eq!(
            repl("/cancel", active),
            ConsoleStep::Shared(Shared::Run(Ok(Command::Cancel(None))))
        );
        assert!(matches!(
            repl("/cancel x", active),
            ConsoleStep::Shared(Shared::Run(Err(CliError::Usage(_))))
        ));
    }
    assert_eq!(repl("/tasks now", true), ConsoleStep::Steer("/tasks now".to_string()));
}

#[test]
fn a_console_without_a_session_has_no_task() {
    assert_eq!(repl_root_task(Ok(Some(TaskId(1)))), Ok(Some(TaskId(1))));
    assert_eq!(repl_root_task(Err(SessionError::NoSession("/ws".to_string()))), Ok(None));
    let busy = SessionError::Busy("held".to_string());
    assert_eq!(repl_root_task(Err(busy.clone())), Err(CliError::Session(busy)));
}

#[test]
fn only_yes_is_consent() {
    let answer = |line: &str| confirm_prelude(&Some(line.to_string()));
    assert_eq!(answer("y\n"), Some(TrustDecision::Trusted));
    assert_eq!(answer(" YES "), Some(TrustDecision::Trusted));
    assert_eq!(answer("\n"), Some(TrustDecision::Rejected));
    assert_eq!(answer("No"), Some(TrustDecision::Rejected));
    assert_eq!(answer("maybe"), None);
    assert_eq!(confirm_prelude(&None), Some(TrustDecision::Rejected));
}

#[test]
fn a_prelude_is_introduced_before_it_is_trusted() {
    let prelude = Prelude {
        path: "/repo/.mh/prelude.js".to_string(),
        source: "//! summarize(path) -> file info\nfunction summarize(path) {}\n".to_string(),
        origin: PreludeOrigin::Workspace,
    };
    let lines = prelude_notice(&prelude);
    assert_eq!(lines[0], "");
    assert_eq!(lines[1], "[prelude] /repo/.mh/prelude.js is not yet trusted.");
    assert!(lines[4].starts_with("  2 lines, sha256:"));
    assert_eq!(lines[5], "  Advertised tools:");
    assert_eq!(lines[6], "    summarize(path) -> file info");
    assert_eq!(lines.len(), 9);
    let silent = Prelude { source: "var x = 1;".to_string(), ..prelude };
    assert_eq!(prelude_notice(&silent)[5], "  It advertises no tools to the model.");
}

fn view() -> TaskView {
    TaskView {
        task_id: TaskId(2),
        agent: AgentId(0),
        goal: GoalState::new(TaskId(2), "ship it".to_string(), RevisionId("r1".to_string())),
        window: 1,
        turns_in_window: 3,
        window_start_seq: 0,
        checkpoint: None,
        latest_user_message: Some("go on".to_string()),
        changed_paths: vec!["a.rs".to_string()],
        evidence: vec![],
        agents: vec![],
        processes: vec![ProcessRecord {
            process: ProcessId(4),
            state: "exited".to_string(),
            argv: vec!["cargo".to_string(), "test".to_string()],
            exit_code: Some(-1),
        }],
        prelude: None,
        base_revision: None,
        pending_steering: vec!["faster\nplease".to_string()],
        cancel_requested: true,
        outcome_unknown_executions: vec![ExecutionId(5)],
        unintegrated_workspaces: vec![],
        open_conflict_paths: vec![],
        unresolved_recovery_workspaces: vec![6],
    }
}

#[test]
fn a_task_is_shown_with_its_sections() {
    let mut view = view();
    view.goal.acceptance_criteria = vec![AcceptanceCriterion {
        description: "green".to_string(),
        met: true,
        evidence_kind: Some("tests".to_string()),
    }];
    view.goal.pending_work = vec![WorkItem {
        title: "docs".to_string(),
        detail: Some("short".to_string()),
    }];
    view.goal.blockers = vec![Blocker {
        summary: "key".to_string(),
        needs: Some("admin".to_string()),
    }];
    let shown = print_task_view(&view);
    let expected: Vec<String> = [
        "task 2",
        "agent: 0",
        &format!("status: {}", view.goal.status.label()),
        "objective: ship it",
        "window: 1 (3 turn(s) so far)",
        "revision: r1",
        "verified revision: none",
        "cancel: requested",
        "last message: go on",
        "acceptance criteria:",
        "  [x] green (evidence: tests)",
        "pending:",
        "  docs — short",
        "blockers:",
        "  key (needs: admin)",
        "changed paths:",
        "  a.rs",
        "pending steering:",
        "  faster …",
        "processes:",
        "  4 exited exit -1 — cargo test",
        "outcome-unknown executions:",
        "  5",
        "unresolved recovery workspaces:",
        "  6",
    ]
    .iter()
    .map(|l| l.to_string())
    .collect();
    assert_eq!(shown, expected);
    assert_eq!(cmd_inspect(&vec![view], TaskId(2)), Ok(expected));
    assert_eq!(cmd_inspect(&vec![], TaskId(2)), Err(CliError::NoTask(2)));
    assert_eq!(
        attach_note(TaskId(2)),
        "[attach] observation only; use `mh resume 2` to compete for runner ownership."
    );
}

#[test]
fn tasks_are_listed_in_columns() {
    assert_eq!(cmd_tasks(&vec![]), vec!["no tasks".to_string()]);
    let mut report: TaskReport = task_report(&view());
    report.status = TaskStatus::WaitingUser;
    let lines = cmd_tasks(&vec![report]);
    assert_eq!(lines[0], "  ID  STATUS          WINDOW  OBJECTIVE");
    assert_eq!(lines[1], "   2  waiting-user         1  ship it");
    assert_eq!(lines[2], "      cancel requested, 1 steering queued");
    let mut quiet = task_report(&view());
    quiet.cancel_requested = false;
    quiet.pending_steering = vec![];
    assert_eq!(print_task_report(&quiet).len(), 1);
}

#[test]
fn requests_are_receipted() {
    let mut receipt = Receipt {
        task_id: TaskId(2),
        command_id: "c9".to_string(),
        seq: 14,
        cache_warning: None,
    };
    assert_eq!(
        steering_receipt(&receipt),
        vec!["[steering] queued for task 2 as command c9 (event 14)".to_string()]
    );
    receipt.cache_warning = Some("stale".to_string());
    assert_eq!(
        cancel_receipt(&receipt),
        vec![
            "[cancel] requested for task 2 as command c9 (event 14)".to_string(),
            "[cancel] warning: stale".to_string()
        ]
    );
    assert_eq!(
        recovery_note(TaskId(2), Resource::Execution(ExecutionId(5)), 15),
        "[recovery] resolved execution 5 for task 2 (event 15)"
    );
}

#[test]
fn a_detached_task_has_its_files_and_its_lines() {
    assert_eq!(task_log_path("/ws", TaskId(7)), "/ws/.mh/tasks/7.log");
    assert_eq!(admission_path("/ws", TaskId(7), 42), "/ws/.mh/tasks/7.42.admission");
    assert_eq!(
        detached_lines(TaskId(7), "/ws/.mh/tasks/7.log"),
        vec![
            "[detach] task 7 admitted".to_string(),
            "[detach] log /ws/.mh/tasks/7.log".to_string(),
            "[detach] steer with `mh steer 7 \"...\"`, watch with `mh inspect 7`".to_string(),
        ]
    );
}

#[test]
fn a_failed_detached_run_blocks_its_task_once_it_owned_it() {
    let lost = CliError::Model("no key".to_string());
    assert_eq!(
        detached_failure(&lost, Some(false), Some(true)),
        (Some("no key\n".to_string()), Some("no key".to_string()))
    );
    assert_eq!(detached_failure(&lost, Some(true), Some(false)), (None, None));
    let busy = CliError::Agent(AgentError::Session(SessionError::Busy("held".to_string())));
    assert_eq!(detached_failure(&busy, None, Some(true)), (None, None));
}

#[test]
fn events_are_shown_one_by_one() {
    let shown = |event: AgentEvent| print_event(&event).join("\n");
    assert_eq!(shown(AgentEvent::ContextWindowStarted { window: 3 }), "[window] 3");
    assert_eq!(
        shown(AgentEvent::Compacted { window: 3, tokens: 90 }),
        "[compact] window 3 -> ~90 tokens"
    );
    assert_eq!(
        shown(AgentEvent::FinishProposed {
            accepted: false,
            objections: vec!["a".to_string(), "b".to_string()]
        }),
        "[finish] refused\n  a\n  b"
    );
    assert_eq!(
        shown(AgentEvent::ProcessExited { process: ProcessId(3), exit_code: Some(-9) }),
        "[process 3] exited -9"
    );
    assert_eq!(
        shown(AgentEvent::ProcessExited { process: ProcessId(3), exit_code: None }),
        "[process 3] exited without a status"
    );
    assert_eq!(
        shown(AgentEvent::PtcHostCallCompleted {
            call_id: 4,
            name: "read".to_string(),
            ok: false,
            duration_ms: 12
        }),
        "[ptc:4] read: failed (12 ms)"
    );
    assert_eq!(
        shown(AgentEvent::PreludeRejected {
            path: "p.js".to_string(),
            reason: PreludeRejection::Declined
        }),
        "[prelude] not loaded: p.js — declined at the confirmation prompt"
    );
    assert_eq!(
        shown(AgentEvent::ToolCompleted {
            outcome: "Completed".to_string(),
            tool_calls: 2,
            duration_ms: 8
        }),
        "[ptc] Completed; 2 tool call(s); 8 ms"
    );
    assert_eq!(shown(AgentEvent::Model(ModelEvent::OutputTextDelta("x".to_string()))), "");
}

#[test]
fn streamed_reasoning_is_closed_before_anything_else() {
    let mut printer = EventPrinter::new();
    let delta = |text: &str| AgentEvent::Model(ModelEvent::ReasoningSummaryDelta(text.to_string()));
    assert_eq!(printer.print(&delta("think")).streamed, "[reasoning] think");
    assert_eq!(printer.print(&delta(" more")).streamed, " more");
    let next = printer.print(&AgentEvent::PtcStarted);
    assert_eq!(next.streamed, "\n");
    assert_eq!(next.lines, vec!["[ptc] executing".to_string()]);
    assert_eq!(printer.print(&AgentEvent::GoalUpdated).streamed, "");
    printer.print(&delta("again"));
    let done = printer.print(&AgentEvent::Model(ModelEvent::ReasoningSummaryDone));
    assert_eq!(done.streamed, "\n");
    assert!(done.lines.is_empty());
}

#[test]
fn a_parked_task_and_a_completed_one_never_share_wording() {
    let (told, answer) = report_outcome(&TaskOutcome::Completed("done".to_string()));
    assert_eq!((told, answer.as_str()), ("[task] complete", "done"));
    let (told, _) = report_outcome(&TaskOutcome::AwaitingUser("hm".to_string()));
    assert_eq!(told, "[task] parked — waiting for you; reply, or run `mh resume`");
    assert_eq!(
        report_worker(&WorkerEnded::Failed(AgentError::Cancelled)),
        ("[agent] cancelled".to_string(), None)
    );
    assert_eq!(report_worker(&WorkerEnded::Panicked).0, "[agent] worker panicked");
    assert_eq!(
        report_worker(&WorkerEnded::Failed(AgentError::Workspace("gone".to_string()))).0,
        "[agent] gone"
    );
}

#[test]
fn a_session_shows_its_last_answer() {
    let session = SessionSummary {
        id: "s1".to_string(),
        active_task: Some(TaskId(2)),
        current_revision: RevisionId("r1".to_string()),
        tasks: 2,
    };
    let answer = |seq: u64, content: &str| EventRecord {
        seq,
        event: SessionEvent::AssistantMessage {
            task_id: TaskId(2),
            content: content.to_string(),
        },
    };
    let journal = vec![
        answer(1, "old"),
        answer(2, "new"),
        EventRecord { seq: 3, event: SessionEvent::ModelStarted { task_id: TaskId(2) } },
    ];
    assert_eq!(
        print_session(&session, &journal),
        vec![
            "id: s1".to_string(),
            "active task: 2".to_string(),
            "current revision: r1".to_string(),
            "events: 3".to_string(),
            "tasks: 2".to_string(),
            "last answer: new".to_string(),
        ]
    );
    assert_eq!(print_session(&SessionSummary { active_task: None, ..session }, &vec![]).len(), 5);
}
