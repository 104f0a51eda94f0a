//! Durable background processes: what is recorded of them, and what follows
//! from what was observed.
use vstd::prelude::*;
use vstd::string::StringExecFns;
use vstd::utf8::{decode_utf8, valid_utf8};
use crate::identity::{copy_text, AgentId, ProcessId, TaskId};
use crate::text::{copy_strings, decimal, decimal_text, join, joined, lines, lines_text, same, size_text, text, to_chars, views};

verus! {

/// Retained tail per stream, in bytes.
pub const TAIL_CAP: usize = 262144;

/// Simultaneously live processes allowed.
pub const DEFAULT_MAX_LIVE: usize = 8;

/// How long a killed process is waited for, in milliseconds.
pub const KILL_REAP_TIMEOUT_MS: u64 = 5000;

/// A request to start a background process. The variables are in the order of
/// their names.
#[derive(Clone, Debug, PartialEq, Eq)]
pub struct ProcessSpec {
    pub command: Vec<String>,
    /// Workspace-relative.
    pub cwd: Option<String>,
    pub env: Vec<(String, String)>,
    pub label: Option<String>,
}

/// Lifecycle of a background process.
#[derive(Clone, Copy, Debug, PartialEq, Eq, Structural)]
pub enum ProcessState {
    Running,
    Exited,
    Killed,
    Failed,
    /// Recorded by a previous runtime; no longer ours to reap.
    Orphaned,
}

/// One of the two output streams of a process.
#[derive(Clone, Copy, Debug, PartialEq, Eq, Structural)]
pub enum ProcessStream {
    Stdout,
    Stderr,
}

/// What is recorded of a process.
#[derive(Debug, PartialEq, Eq)]
pub struct ProcessSnapshot {
    pub id: ProcessId,
    pub owner_task: TaskId,
    pub owner_agent: AgentId,
    pub argv: Vec<String>,
    pub cwd: String,
    pub label: Option<String>,
    pub pid: Option<u32>,
    pub state: ProcessState,
    pub started_at_ms: u64,
    pub exited_at_ms: Option<u64>,
    pub exit_code: Option<i64>,
    pub stdout_bytes: u64,
    pub stderr_bytes: u64,
    /// For orphaned entries: whether the recorded pid still appears to exist.
    pub pid_alive: Option<bool>,
}

/// Whether two snapshots say the same.
pub open spec fn same_snapshot(a: ProcessSnapshot, b: ProcessSnapshot) -> bool {
    &&& a.id == b.id
    &&& a.owner_task == b.owner_task
    &&& a.owner_agent == b.owner_agent
    &&& a.argv@ == b.argv@
    &&& a.cwd == b.cwd
    &&& a.label == b.label
    &&& a.pid == b.pid
    &&& a.state == b.state
    &&& a.started_at_ms == b.started_at_ms
    &&& a.exited_at_ms == b.exited_at_ms
    &&& a.exit_code == b.exit_code
    &&& a.stdout_bytes == b.stdout_bytes
    &&& a.stderr_bytes == b.stderr_bytes
    &&& a.pid_alive == b.pid_alive
}

impl Clone for ProcessSnapshot {
    fn clone(&self) -> (r: Self)
        ensures
            same_snapshot(r, *self),
    {
        ProcessSnapshot {
            id: self.id,
            owner_task: self.owner_task,
            owner_agent: self.owner_agent,
            argv: copy_strings(&self.argv),
            cwd: self.cwd.clone(),
            label: copy_text(&self.label),
            pid: self.pid,
            state: self.state,
            started_at_ms: self.started_at_ms,
            exited_at_ms: self.exited_at_ms,
            exit_code: self.exit_code,
            stdout_bytes: self.stdout_bytes,
            stderr_bytes: self.stderr_bytes,
            pid_alive: self.pid_alive,
        }
    }
}

/// The end of one output stream.
#[derive(Clone, Debug, PartialEq, Eq)]
pub struct ProcessTail {
    pub id: ProcessId,
    pub stream: ProcessStream,
    pub content: String,
    pub total_lines: usize,
    pub truncated: bool,
}

/// Why an operation on a process failed.
#[derive(Clone, Debug, PartialEq, Eq)]
pub enum ProcessError {
    Io { operation: String, path: String, message: String },
    Disabled,
    InvalidSpec(String),
    Sandbox(String),
    NotFound(ProcessId),
    Budget { limit: usize },
    NotRunning(ProcessId),
    Timeout { id: ProcessId, timeout_ms: u64 },
    Cancelled,
}

impl ProcessError {
    /// The message of the error.
    pub open spec fn text(self) -> Seq<char> {
        match self {
            ProcessError::Io { operation, path, message } => operation@ + " failed at "@ + path@
                + ": "@ + message@,
            ProcessError::Disabled => "process_spawn: disabled by policy"@,
            ProcessError::InvalidSpec(message) => "process_spawn: "@ + message@,
            ProcessError::Sandbox(path) => "process cwd escapes workspace: "@ + path@,
            ProcessError::NotFound(id) => "process "@ + decimal(id.0 as nat) + " was not found"@,
            ProcessError::Budget { limit } => "process_spawn: live process budget exhausted ("@
                + decimal(limit as nat) + ")"@,
            ProcessError::NotRunning(id) => "process "@ + decimal(id.0 as nat)
                + " is not running"@,
            ProcessError::Timeout { id, timeout_ms } => "process "@ + decimal(id.0 as nat)
                + " did not exit within "@ + decimal(timeout_ms as nat) + "ms"@,
            ProcessError::Cancelled => "process wait was cancelled"@,
        }
    }

    /// The message of the error.
    pub fn message(&self) -> (r: String)
        ensures
            r@ == self.text(),
    {
        match self {
            ProcessError::Io { operation, path, message } => {
                let mut s = operation.clone();
                s.append(" failed at ");
                s.append(path.as_str());
                s.append(": ");
                s.append(message.as_str());
                s
            },
            ProcessError::Disabled => text("process_spawn: disabled by policy"),
            ProcessError::InvalidSpec(message) => {
                let mut s = text("process_spawn: ");
                s.append(message.as_str());
                s
            },
            ProcessError::Sandbox(path) => {
                let mut s = text("process cwd escapes workspace: ");
                s.append(path.as_str());
                s
            },
            ProcessError::NotFound(id) => {
                let mut s = text("process ");
                s.append(decimal_text(id.0).as_str());
                s.append(" was not found");
                s
            },
            ProcessError::Budget { limit } => {
                let mut s = text("process_spawn: live process budget exhausted (");
                s.append(size_text(*limit).as_str());
                s.append(")");
                s
            },
            ProcessError::NotRunning(id) => {
                let mut s = text("process ");
                s.append(decimal_text(id.0).as_str());
                s.append(" is not running");
                s
            },
            ProcessError::Timeout { id, timeout_ms } => {
                let mut s = text("process ");
                s.append(decimal_text(id.0).as_str());
                s.append(" did not exit within ");
                s.append(decimal_text(*timeout_ms).as_str());
                s.append("ms");
                s
            },
            ProcessError::Cancelled => text("process wait was cancelled"),
        }
    }
}

/// The last `cap` bytes.
pub open spec fn kept(bytes: Seq<u8>, cap: nat) -> Seq<u8> {
    if bytes.len() <= cap {
        bytes
    } else {
        bytes.skip(bytes.len() - cap)
    }
}

/// A bounded tail of a stream and the exact number of bytes it carried.
#[derive(Clone, Debug, PartialEq, Eq)]
pub struct StreamBuffer {
    pub cap: usize,
    pub tail: Vec<u8>,
    pub total: u64,
    /// The end of the stream was seen; the retained tail is final.
    pub done: bool,
}

impl StreamBuffer {
    /// A stream that carried nothing yet.
    pub fn new(cap: usize) -> (r: StreamBuffer)
        ensures
            r.cap == cap,
            r.tail@.len() == 0,
            r.total == 0,
            !r.done,
    {
        StreamBuffer { cap, tail: Vec::new(), total: 0, done: false }
    }

    /// Takes up what the stream carried. The count stays exact up to the width
    /// of the counter; only the retained window is bounded.
    pub fn feed(&mut self, bytes: &[u8])
        ensures
            final(self).cap == old(self).cap,
            final(self).done == old(self).done,
            final(self).total == old(self).total.wrapping_add(bytes@.len() as u64),
            final(self).tail@ == kept(old(self).tail@ + bytes@, old(self).cap as nat),
    {
        let ghost all = self.tail@ + bytes@;
        let cap: usize = self.cap;
        self.total = self.total.wrapping_add(bytes.len() as u64);
        let mut tail: Vec<u8> = Vec::new();
        let mut i: usize = 0;
        let n: usize = bytes.len();
        if n < cap {
            // What is left of the old tail comes first.
            let room: usize = cap - n;
            if self.tail.len() > room {
                i = self.tail.len() - room;
            }
            let ghost from = i as int;
            while i < self.tail.len()
                invariant
                    0 <= from <= i <= self.tail.len(),
                    tail@ == self.tail@.subrange(from, i as int),
                decreases self.tail.len() - i,
            {
                tail.push(self.tail[i]);
                proof {
                    assert(self.tail@.subrange(from, i + 1) =~= self.tail@.subrange(
                        from,
                        i as int,
                    ).push(self.tail@[i as int]));
                }
                i = i + 1;
            }
            let ghost head = tail@;
            let mut j: usize = 0;
            while j < n
                invariant
                    j <= n,
                    n == bytes@.len(),
                    tail@ == head + bytes@.take(j as int),
                decreases n - j,
            {
                tail.push(bytes[j]);
                proof {
                    assert(head + bytes@.take(j + 1) =~= (head + bytes@.take(j as int)).push(
                        bytes@[j as int],
                    ));
                }
                j = j + 1;
            }
            proof {
                assert(bytes@.take(n as int) =~= bytes@);
                assert(tail@ =~= kept(all, cap as nat));
            }
        } else {
            let from: usize = n - cap;
            let mut j: usize = from;
            while j < n
                invariant
                    from <= j <= n,
                    n == bytes@.len(),
                    tail@ == bytes@.subrange(from as int, j as int),
                decreases n - j,
            {
                tail.push(bytes[j]);
                proof {
                    assert(bytes@.subrange(from as int, j + 1) =~= bytes@.subrange(
                        from as int,
                        j as int,
                    ).push(bytes@[j as int]));
                }
                j = j + 1;
            }
            proof {
                assert(tail@ =~= kept(all, cap as nat));
            }
        }
        self.tail = tail;
    }

    /// How many bytes the stream carried.
    pub fn total(&self) -> (r: u64)
        ensures
            r == self.total,
    {
        self.total
    }

    /// The retained bytes, and whether anything was dropped before them.
    pub fn retained(&self) -> (r: (Vec<u8>, bool))
        ensures
            r.0@ == self.tail@,
            r.1 == (self.total > self.tail@.len()),
    {
        let mut bytes: Vec<u8> = Vec::new();
        let mut i: usize = 0;
        while i < self.tail.len()
            invariant
                i <= self.tail.len(),
                bytes@ == self.tail@.take(i as int),
            decreases self.tail.len() - i,
        {
            bytes.push(self.tail[i]);
            proof {
                assert(self.tail@.take(i + 1) =~= self.tail@.take(i as int).push(
                    self.tail@[i as int],
                ));
            }
            i = i + 1;
        }
        proof {
            assert(self.tail@.take(i as int) =~= self.tail@);
        }
        let dropped = self.total > self.tail.len() as u64;
        (bytes, dropped)
    }
}

/// However a stream is cut into pieces, the tail is the end of everything it
/// carried.
pub proof fn law_tail_is_the_end_of_the_stream(a: Seq<u8>, b: Seq<u8>, cap: nat)
    ensures
        kept(kept(a, cap) + b, cap) == kept(a + b, cap),
        kept(a, cap).len() <= cap,
{
    assert(kept(kept(a, cap) + b, cap) =~= kept(a + b, cap));
}

/// What was observed of a child process.
#[derive(Clone, Copy, Debug, PartialEq, Eq, Structural)]
pub enum ChildStatus {
    /// There is no child to observe.
    Gone,
    StillRunning,
    /// It exited; one that was signalled has no exit code.
    Exited(Option<i64>),
    /// It could not be observed.
    Lost,
}

/// A process as this runtime holds it.
#[derive(Debug, PartialEq, Eq)]
pub struct ProcessEntry {
    pub snap: ProcessSnapshot,
    /// Whether there is a child to reap.
    pub has_child: bool,
    pub stdin_open: bool,
    pub out: Option<StreamBuffer>,
    pub err: Option<StreamBuffer>,
    /// We delivered the signal, so exit means killed.
    pub killed: bool,
}

/// The number of bytes of a stream, where there is one; else what was recorded.
pub open spec fn counted(buffer: Option<StreamBuffer>, recorded: u64) -> u64 {
    match buffer {
        Some(b) => b.total,
        None => recorded,
    }
}

impl ProcessEntry {
    /// The state that an end is recorded as.
    pub open spec fn end_state(self, failed: bool) -> ProcessState {
        if failed {
            ProcessState::Failed
        } else if self.killed {
            ProcessState::Killed
        } else {
            ProcessState::Exited
        }
    }

    /// The entry after its end was recorded. Only a running process ends: the
    /// first observer wins.
    pub open spec fn finished(self, exit_code: Option<i64>, failed: bool, now: u64) -> ProcessEntry {
        if self.snap.state is Running {
            ProcessEntry {
                snap: ProcessSnapshot {
                    state: self.end_state(failed),
                    exit_code,
                    exited_at_ms: Some(now),
                    stdout_bytes: counted(self.out, self.snap.stdout_bytes),
                    stderr_bytes: counted(self.err, self.snap.stderr_bytes),
                    ..self.snap
                },
                has_child: false,
                stdin_open: false,
                ..self
            }
        } else {
            self
        }
    }

    /// The entry with its byte counts brought up to date.
    pub open spec fn synced(self) -> ProcessEntry {
        ProcessEntry {
            snap: ProcessSnapshot {
                stdout_bytes: counted(self.out, self.snap.stdout_bytes),
                stderr_bytes: counted(self.err, self.snap.stderr_bytes),
                ..self.snap
            },
            ..self
        }
    }

    /// The entry after an observation of its child.
    pub open spec fn observed(self, status: ChildStatus, now: u64) -> ProcessEntry {
        if !self.has_child {
            self
        } else {
            match status {
                ChildStatus::Gone => self,
                ChildStatus::StillRunning => self.synced(),
                ChildStatus::Exited(code) => self.finished(code, false, now),
                ChildStatus::Lost => self.finished(None, true, now),
            }
        }
    }

    /// The entry after its child was looked at to free its place.
    pub open spec fn refreshed(self, status: ChildStatus, now: u64) -> ProcessEntry {
        if !self.has_child {
            self
        } else {
            match status {
                ChildStatus::Exited(code) => self.finished(code, false, now),
                ChildStatus::Lost => self.finished(None, true, now),
                _ => self,
            }
        }
    }

    /// The entry after it was asked to end. Its standard input is closed; it is
    /// marked as killed where its child still ran, and then a signal is sent.
    pub open spec fn asked_to_end(self, status: ChildStatus) -> ProcessEntry {
        if !self.has_child {
            self
        } else {
            ProcessEntry {
                stdin_open: false,
                killed: self.killed || status is StillRunning,
                ..self
            }
        }
    }

    /// The buffer of a stream.
    pub open spec fn buffer(self, stream: ProcessStream) -> Option<StreamBuffer> {
        match stream {
            ProcessStream::Stdout => self.out,
            ProcessStream::Stderr => self.err,
        }
    }

    /// The buffer of a stream.
    pub fn stream(&self, stream: ProcessStream) -> (r: Option<&StreamBuffer>)
        ensures
            match self.buffer(stream) {
                Some(b) => r == Some(&b),
                None => r is None,
            },
    {
        match stream {
            ProcessStream::Stdout => self.out.as_ref(),
            ProcessStream::Stderr => self.err.as_ref(),
        }
    }

    /// Brings the byte counts up to date.
    pub fn sync_counters(&mut self)
        ensures
            *final(self) == old(self).synced(),
    {
        match &self.out {
            Some(b) => {
                self.snap.stdout_bytes = b.total();
            },
            None => {},
        }
        match &self.err {
            Some(b) => {
                self.snap.stderr_bytes = b.total();
            },
            None => {},
        }
    }

    /// Records the end of the process exactly once; the first observer wins.
    pub fn finish(&mut self, exit_code: Option<i64>, failed: bool, now: u64)
        ensures
            *final(self) == old(self).finished(exit_code, failed, now),
    {
        match self.snap.state {
            ProcessState::Running => {},
            _ => {
                return ;
            },
        }
        self.snap.state = if failed {
            ProcessState::Failed
        } else if self.killed {
            ProcessState::Killed
        } else {
            ProcessState::Exited
        };
        self.snap.exit_code = exit_code;
        self.snap.exited_at_ms = Some(now);
        self.has_child = false;
        self.stdin_open = false;
        self.sync_counters();
    }

    /// Takes up an observation of the child.
    pub fn observe(&mut self, status: ChildStatus, now: u64)
        ensures
            *final(self) == old(self).observed(status, now),
    {
        if self.has_child {
            match status {
                ChildStatus::Gone => {},
                ChildStatus::StillRunning => self.sync_counters(),
                ChildStatus::Exited(code) => self.finish(code, false, now),
                ChildStatus::Lost => self.finish(None, true, now),
            }
        }
    }
}

/// A process that ended stays as it ended, whatever is observed later.
pub proof fn law_end_is_recorded_once(entry: ProcessEntry, status: ChildStatus, now: u64)
    requires
        !(entry.snap.state is Running),
    ensures
        entry.observed(status, now).snap.state == entry.snap.state,
        entry.observed(status, now).snap.exit_code == entry.snap.exit_code,
        entry.observed(status, now).snap.exited_at_ms == entry.snap.exited_at_ms,
{
}

/// Whether an entry with this name is among the variables that are never handed
/// to a child.
pub open spec fn is_secret(name: Seq<char>) -> bool {
    name == "MH_API_KEY"@ || name == "OPENAI_API_KEY"@
}

/// Whether the variable at a place is secret.
pub open spec fn secret_at(env: Seq<(String, String)>, i: int) -> bool {
    0 <= i < env.len() && is_secret(env[i].0@)
}

/// Whether a variable must not be handed to a child.
pub fn is_secret_name(name: &str) -> (r: bool)
    ensures
        r == is_secret(name@),
{
    same(name, "MH_API_KEY") || same(name, "OPENAI_API_KEY")
}

/// Whether a process may be started: processes must be enabled, the command
/// must not be empty, and no secret variable may be set.
pub fn check_spec(disabled: bool, spec: &ProcessSpec) -> (r: Result<(), ProcessError>)
    ensures
        disabled ==> r == Err::<(), ProcessError>(ProcessError::Disabled),
        !disabled && (spec.command@.len() == 0 || spec.command@[0]@.len() == 0) ==> (r matches Err(
            ProcessError::InvalidSpec(m),
        ) && m@ == "empty 'command'"@),
        !disabled && spec.command@.len() > 0 && spec.command@[0]@.len() > 0 ==> match r {
            Ok(_) => forall|i: int| !secret_at(spec.env@, i),
            Err(e) => exists|i: int|
                #[trigger] secret_at(spec.env@, i) && (forall|j: int|
                    0 <= j < i ==> !secret_at(spec.env@, j)) && (e matches
                    ProcessError::InvalidSpec(m) && m@ == "env key "@ + spec.env@[i].0@
                    + " is not assignable"@),
        },
{
    if disabled {
        return Err(ProcessError::Disabled);
    }
    if spec.command.is_empty() || spec.command[0].as_str().is_empty() {
        return Err(ProcessError::InvalidSpec(text("empty 'command'")));
    }
    let mut i: usize = 0;
    while i < spec.env.len()
        invariant
            i <= spec.env.len(),
            !disabled,
            spec.command@.len() > 0,
            spec.command@[0]@.len() > 0,
            forall|j: int| 0 <= j < i ==> !secret_at(spec.env@, j),
        decreases spec.env.len() - i,
    {
        if is_secret_name(spec.env[i].0.as_str()) {
            proof {
                assert(secret_at(spec.env@, i as int));
            }
            let mut message = text("env key ");
            message.append(spec.env[i].0.as_str());
            message.append(" is not assignable");
            return Err(ProcessError::InvalidSpec(message));
        }
        i = i + 1;
    }
    Ok(())
}

/// Where a process runs: in the workspace, unless a place in it is asked for.
/// That place must resolve within the workspace, and to a directory.
pub fn working_directory(
    workspace: &str,
    asked: &Option<String>,
    resolved: Result<String, String>,
    is_directory: bool,
) -> (r: Result<String, ProcessError>)
    ensures
        match (*asked, resolved) {
            (None, _) => r matches Ok(cwd) && cwd@ == workspace@,
            (Some(path), Err(error)) => r == Err::<String, ProcessError>(
                ProcessError::Sandbox(error),
            ),
            (Some(path), Ok(place)) => if is_directory {
                r == Ok::<String, ProcessError>(place)
            } else {
                r == Err::<String, ProcessError>(ProcessError::Sandbox(path))
            },
        },
{
    match asked {
        None => Ok(text(workspace)),
        Some(path) => match resolved {
            Err(error) => Err(ProcessError::Sandbox(error)),
            Ok(place) => if is_directory {
                Ok(place)
            } else {
                Err(ProcessError::Sandbox(path.clone()))
            },
        },
    }
}

/// The text that bytes stand for, with what is not UTF-8 replaced.
pub uninterp spec fn lossy(bytes: Seq<u8>) -> Seq<char>;

/// `String::from_utf8_lossy`. Claimed: the text depends on the bytes alone, and
/// bytes that are UTF-8 are the text they encode.
#[verifier::external_body]
fn lossy_text(bytes: &Vec<u8>) -> (r: String)
    ensures
        r@ == lossy(bytes@),
        valid_utf8(bytes@) ==> r@ == decode_utf8(bytes@),
{
    String::from_utf8_lossy(bytes).into_owned()
}

/// The last `n` lines.
pub open spec fn last_lines(all: Seq<Seq<char>>, n: nat) -> Seq<Seq<char>> {
    if all.len() <= n {
        all
    } else {
        all.skip(all.len() - n)
    }
}

/// Whether `r` is the tail of `n` lines of a text before which something was
/// dropped, or not.
pub open spec fn is_tail(s: Seq<char>, dropped: bool, n: nat, r: ProcessTail) -> bool {
    let all = lines(s);
    &&& r.content@ == joined(last_lines(all, n), "\n"@)
    &&& r.total_lines == all.len()
    &&& r.truncated == (dropped || all.len() > n)
}

/// The tail of a text.
pub fn text_tail(id: ProcessId, stream: ProcessStream, s: &str, dropped: bool, n: usize) -> (r:
    ProcessTail)
    ensures
        r.id == id,
        r.stream == stream,
        is_tail(s@, dropped, n as nat, r),
{
    let all = lines_text(s);
    let ghost texts = lines(s@);
    proof {
        assert(views(all@).len() == all@.len());
    }
    let total_lines: usize = all.len();
    let start: usize = total_lines.saturating_sub(n);
    let mut shown: Vec<String> = Vec::new();
    let mut i: usize = start;
    while i < all.len()
        invariant
            start <= i <= all.len(),
            views(all@) == texts,
            views(shown@) == texts.subrange(start as int, i as int),
        decreases all.len() - i,
    {
        let ghost was = shown@;
        shown.push(all[i].clone());
        proof {
            assert(views(shown@) =~= views(was).push(texts[i as int]));
            assert(texts.subrange(start as int, i + 1) =~= texts.subrange(
                start as int,
                i as int,
            ).push(texts[i as int]));
        }
        i = i + 1;
    }
    proof {
        assert(texts.subrange(start as int, texts.len() as int) =~= last_lines(texts, n as nat));
    }
    ProcessTail {
        id,
        stream,
        content: join(&shown, "\n"),
        total_lines,
        truncated: dropped || start > 0,
    }
}

/// The tail of what was retained of a stream.
pub fn tail_of(id: ProcessId, stream: ProcessStream, bytes: &Vec<u8>, dropped: bool, n: usize) -> (r:
    ProcessTail)
    ensures
        r.id == id,
        r.stream == stream,
        is_tail(lossy(bytes@), dropped, n as nat, r),
        valid_utf8(bytes@) ==> is_tail(decode_utf8(bytes@), dropped, n as nat, r),
{
    let s = lossy_text(bytes);
    text_tail(id, stream, s.as_str(), dropped, n)
}

/// Where the reading of a log's tail starts, given how much it holds.
pub fn log_start(total: u64, cap: usize) -> (r: u64)
    ensures
        r == if total > cap as u64 {
            (total - cap) as u64
        } else {
            0
        },
{
    total.saturating_sub(cap as u64)
}

/// What a process receives on its standard input: the data, ended by a line feed.
pub open spec fn input_line(data: Seq<char>) -> Seq<char> {
    if data.len() > 0 && data.last() == '\n' {
        data
    } else {
        data.push('\n')
    }
}

/// What a process receives on its standard input.
pub fn stdin_payload(data: &str) -> (r: String)
    ensures
        r@ == input_line(data@),
{
    let chars = to_chars(data);
    let mut s = text(data);
    if chars.len() == 0 || chars[chars.len() - 1] != '\n' {
        s.push('\n');
    }
    s
}

/// What a wait does after it looked at the process.
#[derive(Debug, PartialEq, Eq)]
pub enum WaitStep {
    Done(ProcessSnapshot),
    Failed(ProcessError),
    Sleep,
}

/// The session's background processes, by their numbers.
#[derive(Debug, PartialEq, Eq)]
pub struct ProcessManager {
    pub max_live: usize,
    pub entries: Vec<ProcessEntry>,
}

/// Whether processes are in the order of their numbers, none of them twice.
pub open spec fn numbered(entries: Seq<ProcessEntry>) -> bool {
    forall|i: int, j: int|
        0 <= i < j < entries.len() ==> (#[trigger] entries[i]).snap.id.0 < (
        #[trigger] entries[j]).snap.id.0
}

/// Whether the process of a number stands at a place.
pub open spec fn is_at(entries: Seq<ProcessEntry>, id: ProcessId, i: int) -> bool {
    0 <= i < entries.len() && entries[i].snap.id == id
}

/// Whether a process of a number is known.
pub open spec fn known(entries: Seq<ProcessEntry>, id: ProcessId) -> bool {
    exists|i: int| is_at(entries, id, i)
}

/// How many processes run.
pub open spec fn live_count(entries: Seq<ProcessEntry>) -> nat
    decreases entries.len(),
{
    if entries.len() == 0 {
        0
    } else {
        live_count(entries.drop_last()) + if entries.last().snap.state is Running {
            1nat
        } else {
            0nat
        }
    }
}

/// Whether each entry is what it was, with its child looked at.
pub open spec fn is_refreshed(
    was: Seq<ProcessEntry>,
    statuses: Seq<ChildStatus>,
    now: u64,
    after: Seq<ProcessEntry>,
) -> bool {
    &&& after.len() == was.len()
    &&& forall|i: int|
        0 <= i < was.len() ==> #[trigger] after[i] == was[i].refreshed(statuses[i], now)
}

proof fn lemma_one_place(entries: Seq<ProcessEntry>, id: ProcessId, i: int, j: int)
    requires
        numbered(entries),
        is_at(entries, id, i),
        is_at(entries, id, j),
    ensures
        i == j,
{
    if i < j {
        assert(entries[i].snap.id.0 < entries[j].snap.id.0);
    } else if j < i {
        assert(entries[j].snap.id.0 < entries[i].snap.id.0);
    }
}

proof fn lemma_live_count_insert(entries: Seq<ProcessEntry>, i: int, e: ProcessEntry)
    requires
        0 <= i <= entries.len(),
    ensures
        live_count(entries.insert(i, e)) == live_count(entries) + if e.snap.state is Running {
            1nat
        } else {
            0nat
        },
    decreases entries.len(),
{
    let now = entries.insert(i, e);
    if i == entries.len() {
        assert(now.drop_last() =~= entries);
    } else {
        assert(now.drop_last() =~= entries.drop_last().insert(i, e));
        lemma_live_count_insert(entries.drop_last(), i, e);
    }
}

impl ProcessManager {
    /// Whether the processes are in order.
    pub open spec fn wf(self) -> bool {
        numbered(self.entries@)
    }

    /// No processes, and the usual limit.
    pub fn open() -> (r: ProcessManager)
        ensures
            r.wf(),
            r.entries@.len() == 0,
            r.max_live == DEFAULT_MAX_LIVE,
    {
        ProcessManager { max_live: DEFAULT_MAX_LIVE, entries: Vec::new() }
    }

    /// The same processes under another limit.
    pub fn with_max_live(self, max_live: usize) -> (r: ProcessManager)
        ensures
            r.max_live == max_live,
            r.entries == self.entries,
    {
        ProcessManager { max_live, entries: self.entries }
    }

    /// The place of a process.
    pub fn find(&self, id: ProcessId) -> (r: Option<usize>)
        requires
            self.wf(),
        ensures
            match r {
                Some(i) => is_at(self.entries@, id, i as int),
                None => !known(self.entries@, id),
            },
    {
        let mut i: usize = 0;
        while i < self.entries.len()
            invariant
                i <= self.entries.len(),
                forall|j: int| 0 <= j < i ==> !is_at(self.entries@, id, j),
            decreases self.entries.len() - i,
        {
            if self.entries[i].snap.id.0 == id.0 {
                proof {
                    assert(is_at(self.entries@, id, i as int));
                }
                return Some(i);
            }
            i = i + 1;
        }
        None
    }

    /// How many processes run.
    pub fn live(&self) -> (r: usize)
        ensures
            r == live_count(self.entries@),
    {
        let mut count: usize = 0;
        let mut i: usize = 0;
        while i < self.entries.len()
            invariant
                i <= self.entries.len(),
                count <= i,
                count == live_count(self.entries@.take(i as int)),
            decreases self.entries.len() - i,
        {
            proof {
                assert(self.entries@.take(i + 1).drop_last() =~= self.entries@.take(i as int));
            }
            match self.entries[i].snap.state {
                ProcessState::Running => {
                    count = count + 1;
                },
                _ => {},
            }
            i = i + 1;
        }
        proof {
            assert(self.entries@.take(i as int) =~= self.entries@);
        }
        count
    }

    /// Whether a process of this number may be added now. Children that were
    /// observed to have exited give up their places first.
    pub fn reserve(&mut self, id: ProcessId, statuses: &Vec<ChildStatus>, now: u64) -> (r: Result<
        (),
        ProcessError,
    >)
        requires
            old(self).wf(),
            statuses@.len() == old(self).entries@.len(),
        ensures
            final(self).wf(),
            final(self).max_live == old(self).max_live,
            known(old(self).entries@, id) ==> final(self).entries@ == old(self).entries@ && (
            r matches Err(ProcessError::InvalidSpec(m)) && m@ == "process id "@ + decimal(
                id.0 as nat,
            ) + " already exists"@),
            !known(old(self).entries@, id) ==> is_refreshed(
                old(self).entries@,
                statuses@,
                now,
                final(self).entries@,
            ) && !known(final(self).entries@, id) && (if live_count(final(self).entries@) < old(
                self,
            ).max_live {
                r is Ok
            } else {
                r == Err::<(), ProcessError>(ProcessError::Budget { limit: old(self).max_live })
            }),
    {
        match self.find(id) {
            Some(_) => {
                let mut message = text("process id ");
                message.append(decimal_text(id.0).as_str());
                message.append(" already exists");
                return Err(ProcessError::InvalidSpec(message));
            },
            None => {},
        }
        let ghost was = self.entries@;
        let mut i: usize = 0;
        while i < self.entries.len()
            invariant
                i <= self.entries.len(),
                self.entries@.len() == was.len(),
                statuses@.len() == was.len(),
                self.max_live == old(self).max_live,
                forall|j: int|
                    0 <= j < i ==> #[trigger] self.entries@[j] == was[j].refreshed(
                        statuses@[j],
                        now,
                    ),
                forall|j: int| i <= j < was.len() ==> #[trigger] self.entries@[j] == was[j],
            decreases self.entries.len() - i,
        {
            let running = match self.entries[i].snap.state {
                ProcessState::Running => true,
                _ => false,
            };
            if running && self.entries[i].has_child {
                match statuses[i] {
                    ChildStatus::Exited(code) => self.entries[i].finish(code, false, now),
                    ChildStatus::Lost => self.entries[i].finish(None, true, now),
                    _ => {},
                }
            }
            i = i + 1;
        }
        proof {
            let after = self.entries@;
            assert forall|a: int, b: int| 0 <= a < b < after.len() implies (
            #[trigger] after[a]).snap.id.0 < (#[trigger] after[b]).snap.id.0 by {
                assert(after[a].snap.id == was[a].snap.id);
                assert(after[b].snap.id == was[b].snap.id);
            }
            assert forall|k: int| !is_at(after, id, k) by {
                if is_at(after, id, k) {
                    assert(after[k].snap.id == was[k].snap.id);
                    assert(is_at(was, id, k));
                }
            }
        }
        if self.live() >= self.max_live {
            return Err(ProcessError::Budget { limit: self.max_live });
        }
        Ok(())
    }

    /// Adds an entry in its place.
    fn insert(&mut self, entry: ProcessEntry)
        requires
            old(self).wf(),
            !known(old(self).entries@, entry.snap.id),
        ensures
            final(self).wf(),
            final(self).max_live == old(self).max_live,
            exists|i: int|
                0 <= i <= old(self).entries@.len() && final(self).entries@ == #[trigger] old(
                    self,
                ).entries@.insert(i, entry),
    {
        let ghost was = self.entries@;
        let mut i: usize = 0;
        while i < self.entries.len() && self.entries[i].snap.id.0 < entry.snap.id.0
            invariant
                self.entries@ == was,
                numbered(was),
                i <= self.entries.len(),
                forall|j: int| 0 <= j < i ==> (#[trigger] was[j]).snap.id.0 < entry.snap.id.0,
            decreases self.entries.len() - i,
        {
            i = i + 1;
        }
        proof {
            assert forall|j: int| i <= j < was.len() implies (#[trigger] was[j]).snap.id.0
                > entry.snap.id.0 by {
                assert(!is_at(was, entry.snap.id, i as int));
                if j > i {
                    assert(was[i as int].snap.id.0 < was[j].snap.id.0);
                }
            }
        }
        self.entries.insert(i, entry);
        proof {
            let now = self.entries@;
            assert(now =~= was.insert(i as int, entry));
            assert forall|a: int, b: int| 0 <= a < b < now.len() implies (
            #[trigger] now[a]).snap.id.0 < (#[trigger] now[b]).snap.id.0 by {
                if a < i && b < i {
                    assert(now[a] == was[a] && now[b] == was[b]);
                } else if a < i && b == i {
                    assert(now[a] == was[a]);
                } else if a < i {
                    assert(now[a] == was[a] && now[b] == was[b - 1]);
                } else if a == i {
                    assert(now[b] == was[b - 1]);
                } else {
                    assert(now[a] == was[a - 1] && now[b] == was[b - 1]);
                }
            }
        }
    }

    /// Records a process that was started. It runs, and it is the only change;
    /// the limit on running processes is kept.
    pub fn spawn(
        &mut self,
        id: ProcessId,
        owner_task: TaskId,
        owner_agent: AgentId,
        cwd: String,
        spec: ProcessSpec,
        pid: u32,
        now: u64,
    ) -> (r: ProcessSnapshot)
        requires
            old(self).wf(),
            !known(old(self).entries@, id),
            live_count(old(self).entries@) < old(self).max_live,
        ensures
            final(self).wf(),
            final(self).max_live == old(self).max_live,
            live_count(final(self).entries@) == live_count(old(self).entries@) + 1,
            live_count(final(self).entries@) <= final(self).max_live,
            r.id == id,
            r.owner_task == owner_task,
            r.owner_agent == owner_agent,
            r.argv@ == spec.command@,
            r.cwd == cwd,
            r.label == spec.label,
            r.pid == Some(pid),
            r.state is Running,
            r.started_at_ms == now,
            r.exited_at_ms is None,
            r.exit_code is None,
            r.stdout_bytes == 0,
            r.stderr_bytes == 0,
            r.pid_alive is None,
            exists|i: int, e: ProcessEntry|
                0 <= i <= old(self).entries@.len() && final(self).entries@ == #[trigger] old(
                    self,
                ).entries@.insert(i, e) && same_snapshot(r, e.snap) && e.has_child && e.stdin_open
                    && !e.killed && (e.out matches Some(b) && b.cap == TAIL_CAP && b.tail@.len()
                    == 0 && b.total == 0 && !b.done) && (e.err matches Some(b) && b.cap == TAIL_CAP
                    && b.tail@.len() == 0 && b.total == 0 && !b.done),
    {
        let snap = ProcessSnapshot {
            id,
            owner_task,
            owner_agent,
            argv: spec.command,
            cwd,
            label: spec.label,
            pid: Some(pid),
            state: ProcessState::Running,
            started_at_ms: now,
            exited_at_ms: None,
            exit_code: None,
            stdout_bytes: 0,
            stderr_bytes: 0,
            pid_alive: None,
        };
        let copy = snap.clone();
        let entry = ProcessEntry {
            snap,
            has_child: true,
            stdin_open: true,
            out: Some(StreamBuffer::new(TAIL_CAP)),
            err: Some(StreamBuffer::new(TAIL_CAP)),
            killed: false,
        };
        let ghost was = self.entries@;
        let ghost e = entry;
        self.insert(entry);
        proof {
            let i = choose|i: int|
                0 <= i <= was.len() && self.entries@ == #[trigger] was.insert(i, e);
            lemma_live_count_insert(was, i, e);
        }
        copy
    }

    /// Takes up an observation of a process and returns how it stands.
    pub fn poll(&mut self, id: ProcessId, status: ChildStatus, now: u64) -> (r: Result<
        ProcessSnapshot,
        ProcessError,
    >)
        requires
            old(self).wf(),
        ensures
            final(self).wf(),
            final(self).max_live == old(self).max_live,
            !known(old(self).entries@, id) ==> r == Err::<ProcessSnapshot, ProcessError>(
                ProcessError::NotFound(id),
            ) && final(self).entries@ == old(self).entries@,
            known(old(self).entries@, id) ==> exists|i: int|
                #[trigger] is_at(old(self).entries@, id, i) && final(self).entries@ == old(
                    self,
                ).entries@.update(i, old(self).entries@[i].observed(status, now)) && (r matches Ok(
                    snap,
                ) && same_snapshot(snap, final(self).entries@[i].snap)),
    {
        let ghost was = self.entries@;
        match self.find(id) {
            None => Err(ProcessError::NotFound(id)),
            Some(i) => {
                self.entries[i].observe(status, now);
                proof {
                    let now_entries = self.entries@;
                    assert(now_entries =~= was.update(i as int, was[i as int].observed(status, now)));
                    assert forall|a: int, b: int| 0 <= a < b < now_entries.len() implies (
                    #[trigger] now_entries[a]).snap.id.0 < (#[trigger] now_entries[b]).snap.id.0 by {
                        assert(now_entries[a].snap.id == was[a].snap.id);
                        assert(now_entries[b].snap.id == was[b].snap.id);
                    }
                    assert(is_at(was, id, i as int));
                }
                Ok(self.entries[i].snap.clone())
            },
        }
    }

    /// Asks a process to end. Returns whether there is a child to wait for: an
    /// entry without one, such as an orphan, is left alone.
    pub fn kill(&mut self, id: ProcessId, status: ChildStatus) -> (r: Result<bool, ProcessError>)
        requires
            old(self).wf(),
        ensures
            final(self).wf(),
            final(self).max_live == old(self).max_live,
            !known(old(self).entries@, id) ==> r == Err::<bool, ProcessError>(
                ProcessError::NotFound(id),
            ) && final(self).entries@ == old(self).entries@,
            known(old(self).entries@, id) ==> exists|i: int|
                #[trigger] is_at(old(self).entries@, id, i) && final(self).entries@ == old(
                    self,
                ).entries@.update(i, old(self).entries@[i].asked_to_end(status)) && r == Ok::<
                    bool,
                    ProcessError,
                >(old(self).entries@[i].has_child),
    {
        let ghost was = self.entries@;
        match self.find(id) {
            None => Err(ProcessError::NotFound(id)),
            Some(i) => {
                let has_child = self.entries[i].has_child;
                if has_child {
                    self.entries[i].stdin_open = false;
                    match status {
                        ChildStatus::StillRunning => {
                            self.entries[i].killed = true;
                        },
                        _ => {},
                    }
                }
                proof {
                    let now_entries = self.entries@;
                    assert(now_entries =~= was.update(i as int, was[i as int].asked_to_end(status)));
                    assert forall|a: int, b: int| 0 <= a < b < now_entries.len() implies (
                    #[trigger] now_entries[a]).snap.id.0 < (#[trigger] now_entries[b]).snap.id.0 by {
                        assert(now_entries[a].snap.id == was[a].snap.id);
                        assert(now_entries[b].snap.id == was[b].snap.id);
                    }
                    assert(is_at(was, id, i as int));
                }
                Ok(has_child)
            },
        }
    }

    /// Looks at a process that is waited for: one that ended ends the wait, then
    /// a cancellation does, then the deadline.
    pub fn wait(
        &mut self,
        id: ProcessId,
        status: ChildStatus,
        now: u64,
        timeout_ms: Option<u64>,
        cancelled: bool,
        expired: bool,
    ) -> (r: WaitStep)
        requires
            old(self).wf(),
        ensures
            final(self).wf(),
            final(self).max_live == old(self).max_live,
            !known(old(self).entries@, id) ==> r == WaitStep::Failed(ProcessError::NotFound(id))
                && final(self).entries@ == old(self).entries@,
            known(old(self).entries@, id) ==> exists|i: int|
                #[trigger] is_at(old(self).entries@, id, i) && final(self).entries@ == old(
                    self,
                ).entries@.update(i, old(self).entries@[i].observed(status, now)) && (
                if !(final(self).entries@[i].snap.state is Running) {
                    r matches WaitStep::Done(snap) && same_snapshot(
                        snap,
                        final(self).entries@[i].snap,
                    )
                } else if cancelled {
                    r == WaitStep::Failed(ProcessError::Cancelled)
                } else if timeout_ms is Some && expired {
                    r == WaitStep::Failed(
                        ProcessError::Timeout { id, timeout_ms: timeout_ms->0 },
                    )
                } else {
                    r is Sleep
                }),
    {
        let snap = match self.poll(id, status, now) {
            Ok(snap) => snap,
            Err(e) => {
                return WaitStep::Failed(e);
            },
        };
        match snap.state {
            ProcessState::Running => {},
            _ => {
                return WaitStep::Done(snap);
            },
        }
        if cancelled {
            return WaitStep::Failed(ProcessError::Cancelled);
        }
        match timeout_ms {
            Some(ms) => {
                if expired {
                    return WaitStep::Failed(ProcessError::Timeout { id, timeout_ms: ms });
                }
            },
            None => {},
        }
        WaitStep::Sleep
    }

    /// What is written to the standard input of a process, after a look at it:
    /// it must run, with its standard input open.
    pub fn write_stdin(&mut self, id: ProcessId, status: ChildStatus, now: u64, data: &str) -> (r:
        Result<String, ProcessError>)
        requires
            old(self).wf(),
        ensures
            final(self).wf(),
            final(self).max_live == old(self).max_live,
            !known(old(self).entries@, id) ==> r == Err::<String, ProcessError>(
                ProcessError::NotFound(id),
            ) && final(self).entries@ == old(self).entries@,
            known(old(self).entries@, id) ==> exists|i: int|
                #[trigger] is_at(old(self).entries@, id, i) && final(self).entries@ == old(
                    self,
                ).entries@.update(i, old(self).entries@[i].observed(status, now)) && (if final(self).entries@[i].snap.state is Running && final(self).entries@[i].stdin_open {
                    r matches Ok(payload) && payload@ == input_line(data@)
                } else {
                    r == Err::<String, ProcessError>(ProcessError::NotRunning(id))
                }),
    {
        let ghost was = self.entries@;
        let snap = match self.poll(id, status, now) {
            Ok(snap) => snap,
            Err(e) => {
                return Err(e);
            },
        };
        let ghost at = choose|i: int|
            #[trigger] is_at(was, id, i) && self.entries@ == was.update(
                i,
                was[i].observed(status, now),
            ) && same_snapshot(snap, self.entries@[i].snap);
        match snap.state {
            ProcessState::Running => {},
            _ => {
                return Err(ProcessError::NotRunning(id));
            },
        }
        match self.find(id) {
            None => {
                proof {
                    assert(is_at(self.entries@, id, at));
                }
                Err(ProcessError::NotFound(id))
            },
            Some(i) => {
                proof {
                    assert(is_at(self.entries@, id, at));
                    lemma_one_place(self.entries@, id, at, i as int);
                }
                if self.entries[i].stdin_open {
                    Ok(stdin_payload(data))
                } else {
                    Err(ProcessError::NotRunning(id))
                }
            },
        }
    }

    /// The last lines of a stream: of what is kept in memory where there is
    /// something, else of the end of the log. What was read of the log, and how
    /// much it holds, is looked at only then.
    pub fn tail(
        &self,
        id: ProcessId,
        stream: ProcessStream,
        lines: usize,
        log: Result<(Vec<u8>, u64), ProcessError>,
    ) -> (r: Result<ProcessTail, ProcessError>)
        requires
            self.wf(),
        ensures
            !known(self.entries@, id) ==> r == Err::<ProcessTail, ProcessError>(
                ProcessError::NotFound(id),
            ),
            forall|i: int| #[trigger]
                is_at(self.entries@, id, i) ==> match self.entries@[i].buffer(stream) {
                    Some(b) => r matches Ok(t) && t.id == id && t.stream == stream && is_tail(
                        lossy(b.tail@),
                        b.total > b.tail@.len(),
                        lines as nat,
                        t,
                    ),
                    None => match log {
                        Ok((bytes, total)) => r matches Ok(t) && t.id == id && t.stream == stream
                            && is_tail(
                            lossy(bytes@),
                            total > bytes@.len(),
                            lines as nat,
                            t,
                        ),
                        Err(e) => r == Err::<ProcessTail, ProcessError>(e),
                    },
                },
    {
        let i: usize = match self.find(id) {
            None => {
                return Err(ProcessError::NotFound(id));
            },
            Some(i) => i,
        };
        proof {
            assert forall|k: int| #[trigger] is_at(self.entries@, id, k) implies k == i by {
                lemma_one_place(self.entries@, id, k, i as int);
            }
        }
        match self.entries[i].stream(stream) {
            Some(buffer) => {
                let (bytes, dropped) = buffer.retained();
                Ok(tail_of(id, stream, &bytes, dropped, lines))
            },
            None => {
                match log {
                    Ok((bytes, total)) => {
                        let dropped = total > bytes.len() as u64;
                        Ok(tail_of(id, stream, &bytes, dropped, lines))
                    },
                    Err(e) => Err(e),
                }
            },
        }
    }

    /// Every process, in the order of their numbers.
    pub fn list(&self) -> (r: Vec<ProcessSnapshot>)
        ensures
            r@.len() == self.entries@.len(),
            forall|i: int|
                0 <= i < r@.len() ==> same_snapshot(#[trigger] r@[i], self.entries@[i].snap),
    {
        let mut out: Vec<ProcessSnapshot> = Vec::new();
        let mut i: usize = 0;
        while i < self.entries.len()
            invariant
                i <= self.entries.len(),
                out@.len() == i,
                forall|j: int|
                    0 <= j < i ==> same_snapshot(#[trigger] out@[j], self.entries@[j].snap),
            decreases self.entries.len() - i,
        {
            out.push(self.entries[i].snap.clone());
            i = i + 1;
        }
        out
    }

    /// The running processes of an agent: those are killed when it ends.
    pub fn kill_agent(&self, agent: AgentId) -> (r: Vec<ProcessId>)
        ensures
            r@ == running_where(self.entries@, |s: ProcessSnapshot| s.owner_agent == agent),
    {
        let ghost owned = |s: ProcessSnapshot| s.owner_agent == agent;
        let mut out: Vec<ProcessId> = Vec::new();
        let mut i: usize = 0;
        while i < self.entries.len()
            invariant
                i <= self.entries.len(),
                owned == (|s: ProcessSnapshot| s.owner_agent == agent),
                out@ == running_where(self.entries@.take(i as int), owned),
            decreases self.entries.len() - i,
        {
            proof {
                assert(self.entries@.take(i + 1).drop_last() =~= self.entries@.take(i as int));
            }
            let snap = &self.entries[i].snap;
            match snap.state {
                ProcessState::Running => {
                    if snap.owner_agent.0 == agent.0 {
                        out.push(snap.id);
                    }
                },
                _ => {},
            }
            i = i + 1;
        }
        proof {
            assert(self.entries@.take(i as int) =~= self.entries@);
        }
        out
    }

    /// The running processes of a task.
    pub fn kill_task(&self, task: TaskId) -> (r: Vec<ProcessId>)
        ensures
            r@ == running_where(self.entries@, |s: ProcessSnapshot| s.owner_task == task),
    {
        let ghost owned = |s: ProcessSnapshot| s.owner_task == task;
        let mut out: Vec<ProcessId> = Vec::new();
        let mut i: usize = 0;
        while i < self.entries.len()
            invariant
                i <= self.entries.len(),
                owned == (|s: ProcessSnapshot| s.owner_task == task),
                out@ == running_where(self.entries@.take(i as int), owned),
            decreases self.entries.len() - i,
        {
            proof {
                assert(self.entries@.take(i + 1).drop_last() =~= self.entries@.take(i as int));
            }
            let snap = &self.entries[i].snap;
            match snap.state {
                ProcessState::Running => {
                    if snap.owner_task.0 == task.0 {
                        out.push(snap.id);
                    }
                },
                _ => {},
            }
            i = i + 1;
        }
        proof {
            assert(self.entries@.take(i as int) =~= self.entries@);
        }
        out
    }

    /// Takes up what a previous runtime recorded of a process. A process this
    /// runtime knows is its own and stands; any other is added, and one that
    /// was still running is an orphan. Returns what was added, and whether it
    /// must be recorded anew.
    pub fn recover(&mut self, recorded: ProcessSnapshot, pid_exists: Option<bool>) -> (r: Option<
        (ProcessSnapshot, bool),
    >)
        requires
            old(self).wf(),
        ensures
            final(self).wf(),
            final(self).max_live == old(self).max_live,
            known(old(self).entries@, recorded.id) ==> r is None && final(self).entries@ == old(
                self,
            ).entries@,
            !known(old(self).entries@, recorded.id) ==> {
                &&& r matches Some((snap, stale))
                &&& stale == (recorded.state is Running)
                &&& same_snapshot(snap, recovered(recorded, pid_exists))
                &&& exists|i: int, e: ProcessEntry|
                    0 <= i <= old(self).entries@.len() && final(self).entries@ == #[trigger] old(
                        self,
                    ).entries@.insert(i, e) && e.snap == recovered(recorded, pid_exists)
                        && !e.has_child && !e.stdin_open && e.out is None && e.err is None
                        && !e.killed
            },
    {
        match self.find(recorded.id) {
            Some(_) => {
                return None;
            },
            None => {},
        }
        let stale = match recorded.state {
            ProcessState::Running => true,
            _ => false,
        };
        let mut snap = recorded;
        if stale {
            snap.state = ProcessState::Orphaned;
            snap.pid_alive =
            match snap.pid {
                Some(_) => pid_exists,
                None => Some(false),
            };
        }
        let copy = snap.clone();
        let entry = ProcessEntry {
            snap,
            has_child: false,
            stdin_open: false,
            out: None,
            err: None,
            killed: false,
        };
        self.insert(entry);
        Some((copy, stale))
    }
}

/// The numbers of the running processes of which `owned` holds, in order.
pub open spec fn running_where(
    entries: Seq<ProcessEntry>,
    owned: spec_fn(ProcessSnapshot) -> bool,
) -> Seq<ProcessId>
    decreases entries.len(),
{
    if entries.len() == 0 {
        Seq::empty()
    } else {
        let init = running_where(entries.drop_last(), owned);
        if entries.last().snap.state is Running && owned(entries.last().snap) {
            init.push(entries.last().snap.id)
        } else {
            init
        }
    }
}

/// What a record of a previous runtime says now: a process that was running is
/// an orphan, with word on whether its pid still exists.
pub open spec fn recovered(recorded: ProcessSnapshot, pid_exists: Option<bool>) -> ProcessSnapshot {
    if recorded.state is Running {
        ProcessSnapshot {
            state: ProcessState::Orphaned,
            pid_alive: match recorded.pid {
                Some(_) => pid_exists,
                None => Some(false),
            },
            ..recorded
        }
    } else {
        recorded
    }
}

/// A recovered process never counts as running: nothing of a previous runtime
/// is taken for a live child.
pub proof fn law_recovered_processes_never_run(recorded: ProcessSnapshot, pid_exists: Option<bool>)
    ensures
        !(recovered(recorded, pid_exists).state is Running),
        recorded.state is Running ==> recovered(recorded, pid_exists).state is Orphaned,
{
}

/// The extension of a stream's log.
pub open spec fn log_extension(stream: ProcessStream) -> Seq<char> {
    match stream {
        ProcessStream::Stdout => "out"@,
        ProcessStream::Stderr => "err"@,
    }
}

/// The name of the log of a stream.
pub fn log_name(id: ProcessId, stream: ProcessStream) -> (r: String)
    ensures
        r@ == decimal(id.0 as nat) + "."@ + log_extension(stream),
{
    let mut s = decimal_text(id.0);
    s.append(".");
    match stream {
        ProcessStream::Stdout => s.append("out"),
        ProcessStream::Stderr => s.append("err"),
    }
    s
}

/// The name of the file that records a process.
pub fn meta_name(id: ProcessId) -> (r: String)
    ensures
        r@ == decimal(id.0 as nat) + ".json"@,
{
    let mut s = decimal_text(id.0);
    s.append(".json");
    s
}

} // verus!
