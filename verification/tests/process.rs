use mh::identity::{AgentId, ProcessId, TaskId};
use mh::paths::safe_relative;
use mh::process::{
    check_spec, is_secret_name, log_name, log_start, meta_name, stdin_payload, tail_of,
    working_directory, ChildStatus, ProcessError, ProcessManager, ProcessSnapshot, ProcessSpec, ProcessState,
    ProcessStream, StreamBuffer, WaitStep,
};

const TASK: TaskId = TaskId(1);
const ROOT: AgentId = AgentId(0);

fn spec(script: &str) -> ProcessSpec {
    ProcessSpec {
        command: vec!["/bin/sh".to_string(), "-c".to_string(), script.to_string()],
        cwd: None,
        env: vec![],
        label: None,
    }
}

fn start(
    manager: &mut ProcessManager,
    id: u64,
    task: TaskId,
    agent: AgentId,
    script: &str,
) -> Result<ProcessSnapshot, ProcessError> {
    let spec = spec(script);
    check_spec(false, &spec)?;
    let statuses: Vec<ChildStatus> =
        manager.entries.iter().map(|_| ChildStatus::StillRunning).collect();
    manager.reserve(ProcessId(id), &statuses, 10)?;
    let pid = 100 + id as u32;
    Ok(manager.spawn(ProcessId(id), task, agent, "/ws".to_string(), spec, pid, 10))
}

fn feed(manager: &mut ProcessManager, id: u64, bytes: &[u8]) {
    let i = manager.find(ProcessId(id)).unwrap();
    manager.entries[i].out.as_mut().unwrap().feed(bytes);
}

fn no_log() -> Result<(Vec<u8>, u64), ProcessError> {
    Err(ProcessError::Disabled)
}

#[test]
fn spawn_returns_immediately_and_kill_terminates() {
    let mut manager = ProcessManager::open();
    let snap = start(&mut manager, 1, TASK, ROOT, "sleep 5").unwrap();
    assert_eq!(snap.state, ProcessState::Running);
    assert!(snap.pid.is_some(), "pid recorded");

    assert_eq!(manager.kill(ProcessId(1), ChildStatus::StillRunning), Ok(true));
    let killed = manager.poll(ProcessId(1), ChildStatus::Exited(None), 20).unwrap();
    assert_ne!(killed.state, ProcessState::Running);
    assert_eq!(killed.state, ProcessState::Killed);
    assert_eq!(killed.exited_at_ms, Some(20));
}

#[test]
fn output_is_tailable_after_exit() {
    let mut manager = ProcessManager::open();
    start(&mut manager, 7, TASK, ROOT, "printf 'a\nb\nc\n'").unwrap();
    feed(&mut manager, 7, b"a\nb\nc\n");
    let done = match manager.wait(
        ProcessId(7),
        ChildStatus::Exited(Some(0)),
        20,
        None,
        false,
        false,
    ) {
        WaitStep::Done(snap) => snap,
        other => panic!("the child exited: {other:?}"),
    };
    assert_eq!(done.state, ProcessState::Exited);
    assert_eq!(done.exit_code, Some(0));
    assert_eq!(done.stdout_bytes, 6);

    let tail = manager.tail(ProcessId(7), ProcessStream::Stdout, 2, no_log()).unwrap();
    assert_eq!(tail.content, "b\nc");
    assert_eq!(tail.total_lines, 3);
    assert!(tail.truncated);
}

#[test]
fn spawn_never_blocks_on_a_long_child() {
    let mut manager = ProcessManager::open();
    let snap = start(&mut manager, 2, TASK, ROOT, "sleep 3").unwrap();
    assert_eq!(snap.state, ProcessState::Running);
    assert_eq!(
        manager.poll(ProcessId(2), ChildStatus::StillRunning, 11).unwrap().state,
        ProcessState::Running
    );
    assert_eq!(manager.kill(ProcessId(2), ChildStatus::StillRunning), Ok(true));
}

#[test]
fn wait_times_out_without_disturbing_the_child() {
    let mut manager = ProcessManager::open();
    start(&mut manager, 3, TASK, ROOT, "sleep 5").unwrap();
    let running = ChildStatus::StillRunning;
    assert_eq!(
        manager.wait(ProcessId(3), running, 20, Some(50), false, false),
        WaitStep::Sleep
    );
    let step = manager.wait(ProcessId(3), ChildStatus::StillRunning, 60, Some(50), false, true);
    assert!(matches!(
        step,
        WaitStep::Failed(ProcessError::Timeout { id: ProcessId(3), timeout_ms: 50 })
    ));
    assert_eq!(
        manager.poll(ProcessId(3), ChildStatus::StillRunning, 70).unwrap().state,
        ProcessState::Running
    );
    manager.kill(ProcessId(3), ChildStatus::StillRunning).unwrap();
    assert_ne!(
        manager.poll(ProcessId(3), ChildStatus::Exited(None), 80).unwrap().state,
        ProcessState::Running
    );
}

#[test]
fn recover_marks_previous_runtime_processes_orphaned() {
    let mut manager = ProcessManager::open();
    start(&mut manager, 4, TASK, ROOT, "sleep 5").unwrap();
    let recorded = manager.list();

    let mut restarted = ProcessManager::open();
    let mut recovered = vec![];
    for snapshot in recorded {
        recovered.extend(restarted.recover(snapshot, Some(true)).map(|(s, _)| s));
    }
    assert!(recovered.iter().all(|s| s.state != ProcessState::Running));
    let entry = recovered.iter().find(|s| s.id == ProcessId(4)).expect("entry recovered");
    assert_eq!(entry.state, ProcessState::Orphaned);
    assert_eq!(entry.pid_alive, Some(true));
    assert_eq!(
        restarted.poll(ProcessId(4), ChildStatus::Gone, 20).unwrap().state,
        ProcessState::Orphaned
    );
    assert!(
        restarted
            .list()
            .iter()
            .any(|s| s.id == ProcessId(4) && s.state == ProcessState::Orphaned)
    );

    assert_eq!(manager.kill(ProcessId(4), ChildStatus::StillRunning), Ok(true));
    assert_eq!(restarted.kill(ProcessId(4), ChildStatus::Gone), Ok(false));
}

#[test]
fn live_budget_is_enforced() {
    let mut manager = ProcessManager::open().with_max_live(1);
    start(&mut manager, 5, TASK, ROOT, "sleep 5").unwrap();
    let error = start(&mut manager, 6, TASK, ROOT, "sleep 5").expect_err("budget exhausted");
    assert!(matches!(error, ProcessError::Budget { limit: 1 }));
    // A child that was seen to exit gives up its place.
    assert_eq!(manager.reserve(ProcessId(6), &vec![ChildStatus::Exited(Some(0))], 20), Ok(()));
    assert_eq!(manager.live(), 0);
}

#[test]
fn stdin_round_trips_and_requires_a_running_child() {
    let mut manager = ProcessManager::open();
    start(&mut manager, 10, TASK, ROOT, "read line; printf 'got:%s\\n' \"$line\"").unwrap();
    let running = ChildStatus::StillRunning;
    assert_eq!(manager.write_stdin(ProcessId(10), running, 11, "ping"), Ok("ping\n".to_string()));
    feed(&mut manager, 10, b"got:ping\n");
    let step =
        manager.wait(ProcessId(10), ChildStatus::Exited(Some(0)), 12, Some(5_000), false, false);
    assert!(matches!(step, WaitStep::Done(snap) if snap.exit_code == Some(0)));
    let tail = manager.tail(ProcessId(10), ProcessStream::Stdout, 1, no_log()).unwrap();
    assert_eq!(tail.content, "got:ping");
    assert!(matches!(
        manager.write_stdin(ProcessId(10), ChildStatus::Gone, 13, "again"),
        Err(ProcessError::NotRunning(ProcessId(10)))
    ));
}

#[test]
fn ownership_kills_reap_only_matching_processes() {
    let mut manager = ProcessManager::open();
    start(&mut manager, 11, TASK, AgentId(3), "sleep 5").unwrap();
    start(&mut manager, 12, TaskId(2), AgentId(4), "sleep 5").unwrap();

    let killed = manager.kill_agent(AgentId(3));
    assert_eq!(killed.len(), 1);
    assert_eq!(killed[0], ProcessId(11));
    assert_ne!(
        manager.poll(ProcessId(12), ChildStatus::StillRunning, 20).unwrap().state,
        ProcessState::Exited
    );

    let killed = manager.kill_task(TaskId(2));
    assert_eq!(killed.len(), 1);
    assert_eq!(killed[0], ProcessId(12));
    manager.kill(ProcessId(12), ChildStatus::StillRunning).unwrap();
    manager.poll(ProcessId(12), ChildStatus::Exited(None), 30).unwrap();
    // Already terminal: nothing left to signal.
    assert!(manager.kill_task(TaskId(2)).is_empty());
}

#[test]
fn secret_env_keys_are_rejected() {
    let mut leaking = spec("true");
    leaking.env.push(("MH_API_KEY".to_string(), "sk-x".to_string()));
    assert!(matches!(check_spec(false, &leaking), Err(ProcessError::InvalidSpec(_))));
    assert!(is_secret_name("OPENAI_API_KEY"));
    assert!(!is_secret_name("PATH"));
}

/// Resolves a place as a file system would that holds nothing but directories.
fn resolve(workspace: &str, path: &str) -> Result<String, String> {
    if safe_relative(path) {
        Ok(format!("{workspace}/{path}"))
    } else {
        Err(format!("path escapes workspace: {path}"))
    }
}

#[test]
fn policy_and_sandbox_are_enforced() {
    assert!(matches!(check_spec(true, &spec("true")), Err(ProcessError::Disabled)));

    let mut escaping = spec("true");
    escaping.cwd = Some("../..".to_string());
    assert_eq!(check_spec(false, &escaping), Ok(()));
    assert!(matches!(
        working_directory("/w", &escaping.cwd, resolve("/w", "../.."), true),
        Err(ProcessError::Sandbox(_))
    ));
    let inner = Some("src".to_string());
    assert_eq!(
        working_directory("/w", &inner, resolve("/w", "src"), true),
        Ok("/w/src".to_string())
    );
    assert_eq!(
        working_directory("/w", &inner, resolve("/w", "src"), false),
        Err(ProcessError::Sandbox("src".to_string()))
    );
    assert_eq!(working_directory("/w", &None, resolve("/w", ""), true), Ok("/w".to_string()));
}

#[test]
fn a_process_needs_permission_and_a_command() {
    assert!(matches!(check_spec(true, &spec("true")), Err(ProcessError::Disabled)));
    let empty = ProcessSpec { command: vec![], ..spec("true") };
    assert!(matches!(check_spec(false, &empty), Err(ProcessError::InvalidSpec(_))));
    assert_eq!(check_spec(false, &spec("true")), Ok(()));
}

#[test]
fn unknown_processes_are_errors() {
    let mut manager = ProcessManager::open();
    let id = ProcessId(9);
    assert_eq!(manager.poll(id, ChildStatus::Gone, 1), Err(ProcessError::NotFound(id)));
    assert_eq!(manager.kill(id, ChildStatus::Gone), Err(ProcessError::NotFound(id)));
    assert_eq!(
        manager.tail(id, ProcessStream::Stderr, 1, no_log()),
        Err(ProcessError::NotFound(id))
    );
    start(&mut manager, 9, TASK, ROOT, "true").unwrap();
    assert!(matches!(
        start(&mut manager, 9, TASK, ROOT, "true"),
        Err(ProcessError::InvalidSpec(m)) if m == "process id 9 already exists"
    ));
}

#[test]
fn a_cancelled_wait_ends_before_its_deadline() {
    let mut manager = ProcessManager::open();
    start(&mut manager, 1, TASK, ROOT, "sleep 5").unwrap();
    assert_eq!(
        manager.wait(ProcessId(1), ChildStatus::StillRunning, 11, Some(1), true, true),
        WaitStep::Failed(ProcessError::Cancelled)
    );
    // An end that is already there comes first.
    let step = manager.wait(ProcessId(1), ChildStatus::Exited(Some(3)), 12, Some(1), true, true);
    assert!(matches!(step, WaitStep::Done(snap) if snap.exit_code == Some(3)));
}

#[test]
fn an_end_is_recorded_once() {
    let mut manager = ProcessManager::open();
    start(&mut manager, 1, TASK, ROOT, "true").unwrap();
    manager.poll(ProcessId(1), ChildStatus::Exited(Some(2)), 20).unwrap();
    let later = manager.poll(ProcessId(1), ChildStatus::Exited(Some(9)), 99).unwrap();
    assert_eq!(later.exit_code, Some(2));
    assert_eq!(later.exited_at_ms, Some(20));

    start(&mut manager, 2, TASK, ROOT, "true").unwrap();
    let lost = manager.poll(ProcessId(2), ChildStatus::Lost, 21).unwrap();
    assert_eq!(lost.state, ProcessState::Failed);
}

#[test]
fn a_stream_keeps_its_end() {
    let mut buffer = StreamBuffer::new(4);
    buffer.feed(b"abc");
    assert_eq!(buffer.retained(), (b"abc".to_vec(), false));
    buffer.feed(b"defgh");
    assert_eq!(buffer.total(), 8);
    assert_eq!(buffer.retained(), (b"efgh".to_vec(), true));
}

#[test]
fn a_tail_is_read_from_the_log_where_nothing_is_in_memory() {
    let mut first = ProcessManager::open();
    start(&mut first, 1, TASK, ROOT, "true").unwrap();
    let mut manager = ProcessManager::open();
    let recorded = first.list().pop().unwrap();
    manager.recover(recorded, None).unwrap();
    let log = Ok((b"x\ny\n".to_vec(), 4));
    let tail = manager.tail(ProcessId(1), ProcessStream::Stderr, 5, log).unwrap();
    assert_eq!(tail.content, "x\ny");
    assert!(!tail.truncated);
    let missing = Err(ProcessError::Disabled);
    assert_eq!(
        manager.tail(ProcessId(1), ProcessStream::Stderr, 5, missing),
        Err(ProcessError::Disabled)
    );
}

#[test]
fn bytes_that_are_no_text_are_replaced() {
    let tail = tail_of(ProcessId(1), ProcessStream::Stdout, &b"ok\n\xff!\n".to_vec(), false, 1);
    assert_eq!(tail.content, "\u{fffd}!");
    assert_eq!(tail.total_lines, 2);
}

#[test]
fn process_files_are_named_by_number() {
    assert_eq!(log_name(ProcessId(3), ProcessStream::Stdout), "3.out");
    assert_eq!(log_name(ProcessId(3), ProcessStream::Stderr), "3.err");
    assert_eq!(meta_name(ProcessId(3)), "3.json");
    assert_eq!(log_start(100, 30), 70);
    assert_eq!(log_start(10, 30), 0);
    assert_eq!(stdin_payload("a\n"), "a\n");
    assert_eq!(stdin_payload("a"), "a\n");
}

#[test]
fn process_errors_name_their_subject() {
    let timeout = ProcessError::Timeout { id: ProcessId(3), timeout_ms: 50 };
    assert!(timeout.message().contains('3') && timeout.message().contains("50"));
    assert!(ProcessError::Budget { limit: 7 }.message().contains('7'));
    assert!(ProcessError::NotRunning(ProcessId(4)).message().contains('4'));
    assert!(ProcessError::Sandbox("escape".to_string()).message().contains("escape"));
}
