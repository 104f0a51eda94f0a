use std::cell::RefCell;

use mh::checkpoint::{Checkpoint, CheckpointBackend};
use mh::delegation::IntegrationResponse;
use mh::engine::VmError;
use mh::identity::{
    AgentId, CheckpointId, ExecutionId, IsolatedWorkspaceId, PreludeId, ProcessId, ResultId,
    RevisionId, TaskId,
};
use mh::isolation::WorkspaceDelta;
use mh::json::Json;
use mh::process::ProcessStream;
use mh::ptc::calls::{
    agent_argument, batch_cancelled, ensure_direct_host_call, execute_batch, host_error,
    invalid_argument, invalid_goal_update, process_argument, run_host_call, Argument, Batch, BatchPlan, HostCall, Standing,
};
use mh::ptc::diagnostics::{
    classify_diagnostic, contains_unsupported_lexical_declaration, diagnostic, numbers_in,
    PtcDiagnosticKind, RunFacts,
};
use mh::ptc::run::{
    after_program, after_setup, collect_result_ids, collection, empty_result, evidence_record,
    exec_summary, finish_run, handle_methods, host_globals, stream_handle, tool_value, wrapped,
    Listing, Next, ResultMetadata, Stage, ToolValue,
};
use mh::ptc::runtime::{
    error_output, restored_output, result_ids, stable_args_hash, tool_effects, tracks_revision,
    CallReport, ChildAction, EffectKind, ExecState, HostCallOutcome, PtcBudget, PtcEvent,
    PtcEventSink, PtcEventSinkError, PtcExecution, PtcOutcome,
};
use mh::ptc::values::{vm_to_json, Js, Scalar};

fn text(s: &str) -> Argument {
    Argument {
        value: Js::Scalar(Scalar::Text(s.to_string())),
        text: Some(s.to_string()),
        number: None,
    }
}

fn number(n: i64) -> Argument {
    Argument {
        value: Js::Scalar(Scalar::Number(n.to_string())),
        text: Some(n.to_string()),
        number: Some(n),
    }
}

fn truth(b: bool) -> Argument {
    Argument { value: Js::Scalar(Scalar::Bool(b)), text: Some(b.to_string()), number: None }
}

fn object(json: &str) -> Argument {
    Argument { value: Js::Object(Some(json.to_string())), text: None, number: None }
}

fn standing() -> Standing {
    Standing { has_host: true, cancelled: false, max_output_bytes: 65536, receiver: Some(7) }
}

fn call(name: &str, args: Vec<Argument>) -> Result<HostCall, String> {
    run_host_call(name, &args, standing())
}

fn json(text: &str) -> Json {
    Json { text: text.to_string() }
}

#[test]
fn tools_are_called_with_objects() {
    let tool = |name: &str, args: &str| {
        Ok(HostCall::Tool { name: name.to_string(), args: json(args) })
    };
    assert_eq!(call("read", vec![text("a.rs")]), tool("read", "{\"path\":\"a.rs\"}"));
    assert_eq!(
        call("write", vec![text("a"), text("b\"c")]),
        tool("write", "{\"content\":\"b\\\"c\",\"path\":\"a\"}")
    );
    assert_eq!(call("glob", vec![text("src/**")]), tool("glob", "{\"pattern\":\"src/**\"}"));
    assert_eq!(
        call("tool", vec![text("read"), object("{\"path\":\"x\"}")]),
        tool("read", "{\"path\":\"x\"}")
    );
    assert_eq!(call("checkpoint", vec![]), tool("checkpoint", "null"));
    assert_eq!(call("write", vec![text("a")]), Err("write(path, content)".to_string()));
    assert_eq!(call("exec", vec![]), Err("exec(argsObject)".to_string()));
    assert_eq!(call("nothing", vec![]), Err("unknown mh function: nothing".to_string()));
}

#[test]
fn a_batch_names_its_tool_and_its_items() {
    assert_eq!(
        call("batch", vec![text("read"), object("[{\"path\":\"a\"},{\"path\":\"b\"}]")]),
        Ok(HostCall::Batch {
            tool: "read".to_string(),
            items: vec![json("{\"path\":\"a\"}"), json("{\"path\":\"b\"}")]
        })
    );
    assert_eq!(
        call("batch", vec![text("read"), object("{}")]),
        Err("batch(name, args[]): args must be an array".to_string())
    );
    let cancelled = Standing { cancelled: true, ..standing() };
    assert_eq!(run_host_call("batch", &vec![], cancelled), Err("cancelled".to_string()));
}

#[test]
fn orchestration_is_named_by_handle_or_number() {
    assert_eq!(call("agent_poll", vec![number(3)]), Ok(HostCall::AgentPoll(AgentId(3))));
    assert_eq!(
        call("agent_join", vec![object("{\"agent\":4}")]),
        Ok(HostCall::AgentJoin(AgentId(4)))
    );
    assert_eq!(
        call("agent_send", vec![number(3), text("also the tests")]),
        Ok(HostCall::AgentSend { agent: AgentId(3), message: "also the tests".to_string() })
    );
    assert_eq!(call("process_kill", vec![number(2)]), Ok(HostCall::ProcessKill(ProcessId(2))));
    assert_eq!(
        call("process_wait", vec![number(2), number(5000)]),
        Ok(HostCall::ProcessWait { process: ProcessId(2), timeout_ms: Some(5000) })
    );
    assert_eq!(
        call("process_tail", vec![number(2), text("stderr"), number(10)]),
        Ok(HostCall::ProcessTail {
            process: ProcessId(2),
            stream: ProcessStream::Stderr,
            lines: 10
        })
    );
    assert_eq!(
        call("integrate", vec![number(5)]),
        Ok(HostCall::Integrate(IsolatedWorkspaceId(5)))
    );
    assert_eq!(
        call("discard", vec![number(5)]),
        Ok(HostCall::Discard {
            workspace: IsolatedWorkspaceId(5),
            reason: "no reason given".to_string()
        })
    );
    assert_eq!(call("finish", vec![]), Ok(HostCall::Finish { request: None }));
    assert_eq!(
        call("goal", vec![object("{\"pending\":[]}")]),
        Ok(HostCall::Goal { update: json("{\"pending\":[]}") })
    );
    assert!(matches!(
        call("evidence", vec![text("tests"), truth(true)]),
        Ok(HostCall::Evidence { kind, ok: true, .. }) if kind == "tests"
    ));
    assert!(call("agent_poll", vec![]).is_err());
}

#[test]
fn orchestration_needs_a_host() {
    let alone = Standing { has_host: false, ..standing() };
    for name in ["agent_spawn", "finish", "process_list", "integrate", "goal"] {
        assert_eq!(
            run_host_call(name, &vec![], alone),
            Err(format!("{name}: no agent runtime is attached to this execution"))
        );
    }
    assert!(run_host_call("read", &vec![text("a")], alone).is_ok());
}

#[test]
fn handles_are_read_by_the_number_they_carry() {
    assert_eq!(
        call("tr_read", vec![number(5), number(9)]),
        Ok(HostCall::HandleRead { id: 7, offset: 5, limit: 9 })
    );
    assert_eq!(call("tr_head", vec![]), Ok(HostCall::HandleRead { id: 7, offset: 0, limit: 50 }));
    assert_eq!(call("tr_tail", vec![]), Ok(HostCall::HandleTail { id: 7, limit: 50 }));
    assert_eq!(
        call("tr_grep", vec![text("x")]),
        Ok(HostCall::HandleGrep { id: 7, pattern: "x".to_string(), limit: 100 })
    );
    assert_eq!(call("tr_json", vec![]), Ok(HostCall::HandleJson { id: 7 }));
    let lost = Standing { receiver: None, ..standing() };
    assert_eq!(run_host_call("tr_json", &vec![], lost), Err("handle: id".to_string()));
}

#[test]
fn every_global_is_a_call_or_a_usage() {
    for name in host_globals() {
        let answer = run_host_call(name, &vec![], standing());
        if let Err(message) = answer {
            assert!(!message.starts_with("unknown mh function"), "{name}: {message}");
        }
    }
}

#[test]
fn batches_run_in_parallel_but_report_in_order() {
    assert_eq!(execute_batch("read", 5, 8), BatchPlan::Run { concurrency: 5 });
    assert_eq!(execute_batch("exec", 5, 2), BatchPlan::Run { concurrency: 2 });
    assert_eq!(execute_batch("grep", 5, 0), BatchPlan::Run { concurrency: 1 });
    let refused = json("{\"error\":\"tool 'write' is not batch-safe\"}");
    assert_eq!(
        execute_batch("write", 2, 8),
        BatchPlan::Refused(vec![refused.clone(), refused])
    );

    let mut batch = Batch::new(2);
    let (a, b) = (batch.take().unwrap(), batch.take().unwrap());
    assert_eq!(batch.take(), None);
    batch.put(b, json("2"));
    batch.put(a, json("1"));
    assert_eq!(batch.outputs, vec![json("1"), json("2")]);
}

#[test]
fn answers_tell_errors_from_values() {
    assert_eq!(ensure_direct_host_call(&json("{\"content\":\"x\"}")), Ok(()));
    assert!(ensure_direct_host_call(&json("{\"error\":\"cancelled\"}")).is_err());
    assert!(batch_cancelled(false, &vec![json("1"), json("{\"error\":\"cancelled\"}")]));
    assert!(!batch_cancelled(false, &vec![json("{\"error\":\"missing\"}")]));
    assert!(batch_cancelled(true, &vec![]));
    assert_eq!(host_error("delegate", "no slot"), "delegate: no slot");
    assert_eq!(host_error("delegate", "delegate: no slot"), "delegate: no slot");
    assert!(invalid_goal_update("missing field").contains("missing field"));
    assert!(invalid_argument("process_spawn", "spec", "bad").contains("process_spawn"));
}

#[test]
fn values_become_json_within_their_budget() {
    let list = Js::Array(vec![
        Js::Scalar(Scalar::Null),
        Js::Scalar(Scalar::Bool(true)),
        Js::Scalar(Scalar::Number("4".to_string())),
        Js::Scalar(Scalar::Text("a\"b\u{1}".to_string())),
    ]);
    assert_eq!(vm_to_json(&list, 65536).text, "[null,true,4,\"a\\\"b\\u0001\"]");
    assert_eq!(vm_to_json(&Js::Object(Some("{\"b\": 1, \"a\": 2}".to_string())), 65536).text,
        "{\"a\":2,\"b\":1}");
    assert_ne!(vm_to_json(&list, 1).text, vm_to_json(&list, 65536).text);
}

#[test]
fn diagnostics_are_classified() {
    let calm = RunFacts { cancelled: false, past_deadline: false, instructions_exceeded: false };
    let kind = |program: &str, message: &str, facts: RunFacts| {
        classify_diagnostic(program, message, facts).kind
    };
    assert_eq!(kind("x", "boom", RunFacts { cancelled: true, ..calm }), PtcDiagnosticKind::Cancelled);
    assert_eq!(
        kind("x", "interrupted", RunFacts { past_deadline: true, ..calm }),
        PtcDiagnosticKind::WallTime
    );
    assert_eq!(
        kind("x", "interrupted", RunFacts { instructions_exceeded: true, ..calm }),
        PtcDiagnosticKind::InstructionBudget
    );
    assert_eq!(
        kind("x", "tool call budget exceeded", calm),
        PtcDiagnosticKind::ToolBudget
    );
    assert_eq!(kind("x", "process budget exceeded", calm), PtcDiagnosticKind::ProcessBudget);
    assert_eq!(kind("let a = 1;", "SyntaxError: bad", calm), PtcDiagnosticKind::UnsupportedSyntax);
    assert_eq!(kind("var a = ;", "SyntaxError: bad", calm), PtcDiagnosticKind::Syntax);
    assert_eq!(kind("f()", "TypeError: not a function", calm), PtcDiagnosticKind::Runtime);
    assert_eq!(numbers_in("at 12:34, line 5"), vec![12, 34, 5]);
    assert!(contains_unsupported_lexical_declaration("const x = 1;"));
    assert!(!contains_unsupported_lexical_declaration("var letter = constant;"));
    let shown = diagnostic(PtcDiagnosticKind::Runtime, "a \"b\"".to_string()).to_json();
    assert_eq!(shown.str_at("/ptcError/message"), Some("a \"b\"".to_string()));
    assert_eq!(shown.str_at("/ptcError/kind"), Some(PtcDiagnosticKind::Runtime.label().to_string()));
}

fn execution() -> PtcExecution {
    PtcExecution {
        task_id: TaskId(1),
        agent: AgentId(0),
        execution_id: ExecutionId(2),
        start_revision: RevisionId("r1".to_string()),
    }
}

struct Sink {
    seen: RefCell<usize>,
    fails: bool,
}

impl PtcEventSink for Sink {
    fn emit(&self, _event: &PtcEvent) -> Result<(), PtcEventSinkError> {
        *self.seen.borrow_mut() += 1;
        if self.fails {
            Err(PtcEventSinkError::new("disk full"))
        } else {
            Ok(())
        }
    }
}

fn report(output: &str) -> CallReport {
    CallReport {
        output: json(output),
        before: None,
        restored: None,
        current: None,
        delta: None,
        duration_ms: 3,
    }
}

#[test]
fn calls_are_traced_and_numbered() {
    let mut state = ExecState::new(&PtcBudget::default(), execution());
    let sink = Sink { seen: RefCell::new(0), fails: false };
    let args = json("{\"path\":\"a\"}");
    let open = state.begin_call(Some(&sink), "read", &args, true);
    assert_eq!(open.args_hash, stable_args_hash(&args));
    assert_eq!(state.next_action(&open, "read", &args, true, false), ChildAction::Read);
    let answer = state.end_call(Some(&sink), &open, "read", report("{\"content\":\"x\"}"));
    assert_eq!(answer, json("{\"content\":\"x\"}"));
    assert_eq!(*sink.seen.borrow(), 2);
    let second = state.begin_call(Some(&sink), "read", &args, true);
    assert_ne!(second.call_id, open.call_id);
    assert!(matches!(
        &state.events[1],
        PtcEvent::HostCallCompleted { ok: true, outcome: HostCallOutcome::Succeeded, name, .. }
            if name == "read"
    ));
}

#[test]
fn the_call_budget_is_kept() {
    let budget = PtcBudget { max_tool_calls: 1, max_processes: 0, ..PtcBudget::default() };
    let mut state = ExecState::new(&budget, execution());
    let none: Option<&Sink> = None;
    let first = state.begin_call(none, "read", &Json::null(), true);
    assert_eq!(first.refusal, None);
    let second = state.begin_call(none, "read", &Json::null(), true);
    assert_eq!(
        state.next_action(&second, "read", &Json::null(), true, false),
        ChildAction::Answer(error_output("tool call budget exceeded"))
    );
    assert!(state.count_process().is_err());
}

#[test]
fn a_failed_sink_refuses_calls() {
    let mut state = ExecState::new(&PtcBudget::default(), execution());
    let sink = Sink { seen: RefCell::new(0), fails: true };
    let open = state.begin_call(Some(&sink), "read", &Json::null(), true);
    assert!(open.sink_failed);
    assert_eq!(
        state.next_action(&open, "read", &Json::null(), true, false),
        ChildAction::Answer(error_output("event sink failed"))
    );
    assert_eq!(state.sink_error, Some(PtcEventSinkError("disk full".to_string())));
}

#[test]
fn workers_that_only_read_change_nothing() {
    let mut state = ExecState::new(&PtcBudget::default(), execution());
    let none: Option<&Sink> = None;
    for name in ["write", "edit", "checkpoint", "restore"] {
        let open = state.begin_call(none, name, &Json::null(), true);
        assert_eq!(
            state.next_action(&open, name, &Json::null(), false, false),
            ChildAction::Answer(error_output(&format!("{name}: disabled by policy")))
        );
    }
    let open = state.begin_call(none, "write", &Json::null(), true);
    assert_eq!(
        state.next_action(&open, "write", &Json::null(), true, true),
        ChildAction::Answer(error_output("cancelled"))
    );
    assert_eq!(state.next_action(&open, "write", &Json::null(), true, false), ChildAction::Write);
}

fn saved() -> Checkpoint {
    Checkpoint {
        id: CheckpointId(3),
        revision: RevisionId("r3".to_string()),
        backend: CheckpointBackend::Git { tree: "t".to_string() },
    }
}

#[test]
fn what_the_host_writes_is_read_back() {
    let odd = "process budget exceeded: \"x\"\\\u{1}\n\u{e9}";
    assert_eq!(ensure_direct_host_call(&error_output(odd)), Err(odd.to_string()));
    assert_eq!(ensure_direct_host_call(&error_output("missing")), Ok(()));

    let revision = RevisionId("r\"\\\t\u{1f}".to_string());
    let made = Checkpoint { id: CheckpointId(u64::MAX), revision, ..saved() };
    let mut state = ExecState::new(&PtcBudget::default(), execution());
    let handle = state.checkpointed(Ok(made.clone()));
    let none: Option<&Sink> = None;
    let open = state.begin_call(none, "restore", &handle, true);
    assert_eq!(
        state.next_action(&open, "restore", &handle, true, false),
        ChildAction::Restore(made)
    );

    let output = state.end_call(none, &open, "restore", report(&error_output(odd).text));
    assert_eq!(output, error_output(odd));
    assert!(matches!(
        state.events.last(),
        Some(PtcEvent::HostCallCompleted {
            outcome: HostCallOutcome::BudgetExceeded,
            ok: false,
            ..
        })
    ));
    let output = state.end_call(none, &open, "restore", report(&handle.text));
    assert_eq!(output, handle);
    assert!(matches!(
        state.events.last(),
        Some(PtcEvent::HostCallCompleted { outcome: HostCallOutcome::Succeeded, ok: true, .. })
    ));
    let most = vec![Argument {
        value: Js::Scalar(Scalar::Number(u64::MAX.to_string())),
        text: None,
        number: None,
    }];
    assert_eq!(agent_argument("agent_poll", &most, 100), Ok(AgentId(u64::MAX)));
    assert_eq!(process_argument("process_poll", &most, 100), Ok(ProcessId(u64::MAX)));
}

#[test]
fn a_made_checkpoint_can_be_restored() {
    let mut state = ExecState::new(&PtcBudget::default(), execution());
    let answer = state.checkpointed(Ok(saved()));
    assert_eq!(answer.number_at("/id"), Some(3));
    assert_eq!(answer.str_at("/revision"), Some("r3".to_string()));
    assert_eq!(state.find_checkpoint(3), Some(saved()));
    assert_eq!(state.find_checkpoint(4), None);
    let none: Option<&Sink> = None;
    let open = state.begin_call(none, "restore", &answer, true);
    assert_eq!(
        state.next_action(&open, "restore", &answer, true, false),
        ChildAction::Restore(saved())
    );
    let restored = restored_output(&saved(), &Ok(RevisionId("r3".to_string())));
    assert_eq!(restored.str_at("/revision"), Some("r3".to_string()));
    let failed = restored_output(&saved(), &Err("mismatch".to_string()));
    assert!(failed.str_at("/error").unwrap().contains("mismatch"));
    assert!(state.checkpointed(Err("no space".to_string())).str_at("/error").is_some());
}

#[test]
fn a_changed_workspace_is_traced() {
    let mut state = ExecState::new(&PtcBudget::default(), execution());
    let none: Option<&Sink> = None;
    let open = state.begin_call(none, "write", &Json::null(), true);
    let changed = CallReport {
        before: Some(RevisionId("r1".to_string())),
        current: Some(RevisionId("r2".to_string())),
        delta: Some(WorkspaceDelta {
            added: vec!["a".to_string()],
            modified: vec![],
            deleted: vec![],
        }),
        ..report("{\"ok\":true}")
    };
    state.end_call(none, &open, "write", changed);
    assert!(state.events.iter().any(|event| matches!(
        event,
        PtcEvent::WorkspaceRevisionChanged { to, added, .. }
            if to.0 == "r2" && added == &vec!["a".to_string()]
    )));
    assert_eq!(state.current_revision, RevisionId("r2".to_string()));
    assert!(tracks_revision("exec") && !tracks_revision("read"));
    assert_eq!(tool_effects("exec").kind, EffectKind::Process);
    assert!(!tool_effects("read").mutates_workspace);
}

#[test]
fn an_integration_moves_the_run_to_the_new_revision() {
    let mut state = ExecState::new(&PtcBudget::default(), execution());
    let applied = IntegrationResponse {
        ok: true,
        conflict: false,
        previous_revision: Some(RevisionId("r1".to_string())),
        parent_revision: Some(RevisionId("r9".to_string())),
        child_base: None,
        parent_current: None,
        paths: vec![],
        error: None,
        requires_reverification: true,
    };
    state.integrated(&applied);
    assert_eq!(state.current_revision, RevisionId("r9".to_string()));
    state.integrated(&IntegrationResponse::error("no".to_string()));
    assert_eq!(state.current_revision, RevisionId("r9".to_string()));
}

#[test]
fn a_run_passes_through_its_stages() {
    assert_eq!(after_setup(Stage::Install, true, "p.js", None), Next::Go(Stage::Prelude));
    assert_eq!(after_setup(Stage::Install, false, "p.js", None), Next::Go(Stage::Program));
    assert_eq!(after_setup(Stage::Prelude, true, "p.js", None), Next::Go(Stage::Reinstall));
    assert_eq!(after_setup(Stage::Reinstall, true, "p.js", None), Next::Go(Stage::Program));
    let broken = VmError::Exception("SyntaxError".to_string());
    match after_setup(Stage::Prelude, true, "p.js", Some(broken)) {
        Next::End(ending) => {
            assert!(matches!(&ending.outcome, PtcOutcome::Failed(m) if m.contains("p.js")));
        }
        other => panic!("a broken prelude ends the run: {other:?}"),
    }
    assert!(wrapped("return 1;").contains("return 1;"));
}

#[test]
fn a_program_ends_in_an_outcome() {
    let calm = RunFacts { cancelled: false, past_deadline: false, instructions_exceeded: false };
    let good = after_program("return 1;", Ok(json("1")), calm);
    assert_eq!(good.outcome, PtcOutcome::Completed);
    assert_eq!(good.value, json("1"));
    let thrown = Err(VmError::Exception("TypeError: x".to_string()));
    let bad = after_program("x()", thrown, calm);
    assert!(matches!(bad.outcome, PtcOutcome::Failed(_)));
    assert_eq!(bad.diagnostic.unwrap().kind, PtcDiagnosticKind::Runtime);
    let stopped = Err(VmError::Exception("interrupted".to_string()));
    let cancelled = after_program("x()", stopped, RunFacts { cancelled: true, ..calm });
    assert_eq!(cancelled.outcome, PtcOutcome::Interrupted);

    let mut state = ExecState::new(&PtcBudget::default(), execution());
    state.tool_calls = 4;
    let result = finish_run(state, good, 9);
    assert_eq!(result.tool_calls, 4);
    assert_eq!(result.duration_ms, 9);
    assert_eq!(result.end_revision, RevisionId("r1".to_string()));
    let empty = empty_result(&VmError::OutOfMemory, &execution(), 2);
    assert!(matches!(empty.outcome, PtcOutcome::Failed(_)));
}

#[test]
fn a_sink_failure_fails_the_run() {
    let calm = RunFacts { cancelled: false, past_deadline: false, instructions_exceeded: false };
    let mut state = ExecState::new(&PtcBudget::default(), execution());
    state.sink_error = Some(PtcEventSinkError("disk full".to_string()));
    let result = finish_run(state, after_program("return 1;", Ok(json("1")), calm), 1);
    assert!(matches!(&result.outcome, PtcOutcome::Failed(m) if m.contains("disk full")));
}

#[test]
fn interrupts_stop_a_run() {
    let budget = PtcBudget { instruction_limit: Some(0), ..PtcBudget::default() };
    let mut limited = ExecState::new(&budget, execution());
    assert!(limited.interrupted(false, false));
    assert!(limited.instructions_exceeded());
    let mut free = ExecState::new(
        &PtcBudget { instruction_limit: None, ..PtcBudget::default() },
        execution(),
    );
    assert!(!free.interrupted(false, false));
    assert!(free.interrupted(true, false));
    assert!(free.interrupted(false, true));
    assert!(!free.instructions_exceeded());
}

#[test]
fn evidence_keeps_the_results_it_names() {
    let store = vec![ResultId(1), ResultId(4)];
    let metadata = json("{\"log\":{\"id\":4},\"other\":{\"id\":9},\"note\":\"green\"}");
    assert_eq!(collect_result_ids(&store, &metadata), vec![ResultId(4)]);
    let state = ExecState::new(&PtcBudget::default(), execution());
    let prelude = Some(PreludeId("sha256:p".to_string()));
    let record =
        evidence_record(&state, &store, &prelude, "tests".to_string(), true, &metadata, 77);
    assert_eq!(record.kind, "tests");
    assert!(record.ok);
    assert_eq!(record.note, Some("green".to_string()));
    assert_eq!(record.revision, RevisionId("r1".to_string()));
    assert_eq!(record.prelude, prelude);
    assert_eq!(record.timestamp_ms, 77);
    assert_eq!(record.result_ids, vec![ResultId(4)]);
}

#[test]
fn listings_and_streams_become_handles() {
    let output = json("{\"paths\":[\"a\",\"b\"],\"truncated\":true}");
    assert_eq!(
        collection(&output, "/paths"),
        Listing::Items { items: vec![json("\"a\""), json("\"b\"")], truncated: true }
    );
    assert_eq!(collection(&json("{\"error\":\"no\"}"), "/paths"), Listing::Whole);
    let metadata = ResultMetadata { length: 5, total_bytes: 9, truncated: true };
    let handle = stream_handle(3, Some(metadata));
    assert_eq!((handle.id, handle.length, handle.total_bytes), (3, 5, 9));
    assert!(handle.truncated);
    let run = json("{\"exitCode\":-2,\"durationMs\":8,\"stdoutId\":1,\"stderrId\":4}");
    let summary = exec_summary(&run).unwrap();
    assert_eq!((summary.exit_code, summary.duration_ms), (-2, 8));
    assert_eq!((summary.stdout, summary.stderr), (1, 4));
    assert!(exec_summary(&json("{\"error\":\"no\"}")).is_none());
    assert_eq!(exec_summary(&json("{}")).unwrap().exit_code, -1);
    assert_eq!(result_ids(&run), vec![ResultId(1), ResultId(4)]);
}

#[test]
fn programs_see_findings_and_commands() {
    let found = json("{\"files\":[\"a\"],\"matches\":[\"m\",\"n\"]}");
    assert_eq!(
        tool_value("glob", &found),
        ToolValue::Items { items: vec![json("\"a\"")], truncated: false }
    );
    assert_eq!(
        tool_value("grep", &found),
        ToolValue::Items { items: vec![json("\"m\""), json("\"n\"")], truncated: false }
    );
    assert_eq!(tool_value("read", &found), ToolValue::Whole);
    let failed = json("{\"error\":\"no\"}");
    assert_eq!(tool_value("glob", &failed), ToolValue::Whole);
    assert_eq!(tool_value("exec", &failed), ToolValue::Whole);
    let run = json("{\"exitCode\":3,\"stdoutId\":5}");
    match tool_value("exec", &run) {
        ToolValue::Exec(s) => {
            assert_eq!((s.exit_code, s.duration_ms, s.stdout, s.stderr), (3, 0, 5, 0));
        }
        other => panic!("{other:?}"),
    }
    let methods = handle_methods();
    assert_eq!(methods.len(), 5);
    assert_eq!(methods[3], ("grep", "tr_grep"));
}
