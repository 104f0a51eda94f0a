//! The decisions of the program runtime: budgets, the trace of host calls, and
//! how a run ends.
use vstd::prelude::*;
use vstd::string::StringExecFns;
use vstd::utf8::encode_utf8;
use crate::checkpoint::Checkpoint;
use crate::delegation::IntegrationResponse;
use crate::engine::JS_INTERRUPT_COUNTER_INIT;
use crate::identity::{AgentId, ExecutionId, ResultId, RevisionId, TaskId};
use crate::isolation::WorkspaceDelta;
use crate::json::{checkpoint_json, error_json, insert_number, json_number, json_string, json_value, json_with_number, number_at, quote, string_at, value_at, Json};
use crate::ptc::calls::reported_error;
use crate::session::{EvidenceRecord, RevisionSource};
use crate::text::{contains, contains_text, decimal_text, same, text, views};

verus! {

/// One run of a program.
#[derive(Debug, PartialEq, Eq)]
pub struct PtcExecution {
    pub task_id: TaskId,
    /// Which agent the program belongs to. Anything but the root agent is a
    /// delegated worker, which may not delegate in turn.
    pub agent: AgentId,
    pub execution_id: ExecutionId,
    pub start_revision: RevisionId,
}

impl Clone for PtcExecution {
    fn clone(&self) -> (r: Self)
        ensures
            r == *self,
    {
        PtcExecution {
            task_id: self.task_id,
            agent: self.agent,
            execution_id: self.execution_id,
            start_revision: self.start_revision.clone(),
        }
    }
}

/// What a run may use.
#[derive(Clone, Debug, PartialEq, Eq)]
pub struct PtcBudget {
    pub wall_time_ms: u64,
    pub instruction_limit: Option<u64>,
    pub max_tool_calls: usize,
    pub max_processes: usize,
    pub max_result_bytes: usize,
    pub max_output_bytes: usize,
    /// Heap of the machine.
    pub heap_bytes: usize,
    /// Host operations that a batch runs at a time.
    pub max_parallel_tools: usize,
}

impl Default for PtcBudget {
    fn default() -> (r: PtcBudget)
        ensures
            r == (PtcBudget {
                wall_time_ms: 120000,
                instruction_limit: Some(100000000),
                max_tool_calls: 200,
                max_processes: 16,
                max_parallel_tools: 8,
                max_result_bytes: 4194304,
                max_output_bytes: 65536,
                heap_bytes: 4194304,
            }),
    {
        PtcBudget {
            wall_time_ms: 120000,
            instruction_limit: Some(100000000),
            max_tool_calls: 200,
            max_processes: 16,
            max_parallel_tools: 8,
            max_result_bytes: 4194304,
            max_output_bytes: 65536,
            heap_bytes: 4194304,
        }
    }
}

/// Why a run ended.
#[derive(Clone, Debug, PartialEq, Eq)]
pub enum PtcOutcome {
    Completed,
    BudgetExceeded(&'static str),
    Interrupted,
    Failed(String),
}

/// An outcome as plain values.
pub enum Outcome {
    Completed,
    BudgetExceeded(Seq<char>),
    Interrupted,
    Failed(Seq<char>),
}

impl View for PtcOutcome {
    type V = Outcome;

    open spec fn view(&self) -> Outcome {
        match *self {
            PtcOutcome::Completed => Outcome::Completed,
            PtcOutcome::BudgetExceeded(what) => Outcome::BudgetExceeded(what@),
            PtcOutcome::Interrupted => Outcome::Interrupted,
            PtcOutcome::Failed(message) => Outcome::Failed(message@),
        }
    }
}

/// How a host call ended.
#[derive(Clone, Copy, Debug, PartialEq, Eq, Structural)]
pub enum HostCallOutcome {
    Succeeded,
    Error,
    Cancelled,
    BudgetExceeded,
}

/// What a tool is declared to do.
#[derive(Clone, Copy, Debug, PartialEq, Eq, Structural)]
pub enum EffectKind {
    /// It reads the workspace.
    Read,
    /// It reads the workspace and may change it.
    Edit,
    /// It runs a process.
    Process,
    /// None of these.
    Meta,
}

/// What a tool did.
#[derive(Clone, Copy, Debug, PartialEq, Eq, Structural)]
pub struct ToolEffects {
    pub kind: EffectKind,
    /// The workspace was observed to change.
    pub mutates_workspace: bool,
}

/// The declared effects of a tool.
pub open spec fn effects_of(name: Seq<char>) -> EffectKind {
    if name == "read"@ || name == "glob"@ || name == "grep"@ {
        EffectKind::Read
    } else if name == "write"@ || name == "edit"@ {
        EffectKind::Edit
    } else if name == "exec"@ {
        EffectKind::Process
    } else {
        EffectKind::Meta
    }
}

/// The declared effects of a tool. Whether it changed the workspace is not
/// declared but observed.
pub fn tool_effects(name: &str) -> (r: ToolEffects)
    ensures
        r == (ToolEffects { kind: effects_of(name@), mutates_workspace: false }),
{
    let kind = if same(name, "read") || same(name, "glob") || same(name, "grep") {
        EffectKind::Read
    } else if same(name, "write") || same(name, "edit") {
        EffectKind::Edit
    } else if same(name, "exec") {
        EffectKind::Process
    } else {
        EffectKind::Meta
    };
    ToolEffects { kind, mutates_workspace: false }
}

/// One entry of the trace of a run.
#[derive(Clone, Debug, PartialEq, Eq)]
pub enum PtcEvent {
    HostCallStarted {
        task_id: TaskId,
        execution_id: ExecutionId,
        call_id: u64,
        name: String,
        args_hash: u64,
    },
    HostCallCompleted {
        task_id: TaskId,
        execution_id: ExecutionId,
        call_id: u64,
        name: String,
        args_hash: u64,
        effects: ToolEffects,
        outcome: HostCallOutcome,
        ok: bool,
        duration_ms: u64,
        result_ids: Vec<ResultId>,
        paths: Vec<String>,
    },
    WorkspaceRevisionChanged {
        task_id: TaskId,
        execution_id: ExecutionId,
        from: RevisionId,
        to: RevisionId,
        added: Vec<String>,
        modified: Vec<String>,
        deleted: Vec<String>,
        source: RevisionSource,
    },
    EvidenceRecorded { evidence: EvidenceRecord },
}

/// An entry of the trace as plain values.
pub enum Trace {
    Started {
        task_id: TaskId,
        execution_id: ExecutionId,
        call_id: u64,
        name: Seq<char>,
        args_hash: u64,
    },
    Completed {
        task_id: TaskId,
        execution_id: ExecutionId,
        call_id: u64,
        name: Seq<char>,
        args_hash: u64,
        effects: ToolEffects,
        outcome: HostCallOutcome,
        ok: bool,
        duration_ms: u64,
        result_ids: Seq<ResultId>,
        paths: Seq<Seq<char>>,
    },
    RevisionChanged {
        task_id: TaskId,
        execution_id: ExecutionId,
        from: Seq<char>,
        to: Seq<char>,
        added: Seq<Seq<char>>,
        modified: Seq<Seq<char>>,
        deleted: Seq<Seq<char>>,
        source: RevisionSource,
    },
    Evidence(EvidenceRecord),
}

impl View for PtcEvent {
    type V = Trace;

    open spec fn view(&self) -> Trace {
        match *self {
            PtcEvent::HostCallStarted { task_id, execution_id, call_id, name, args_hash } =>
            Trace::Started { task_id, execution_id, call_id, name: name@, args_hash },
            PtcEvent::HostCallCompleted {
                task_id,
                execution_id,
                call_id,
                name,
                args_hash,
                effects,
                outcome,
                ok,
                duration_ms,
                result_ids,
                paths,
            } => Trace::Completed {
                task_id,
                execution_id,
                call_id,
                name: name@,
                args_hash,
                effects,
                outcome,
                ok,
                duration_ms,
                result_ids: result_ids@,
                paths: views(paths@),
            },
            PtcEvent::WorkspaceRevisionChanged {
                task_id,
                execution_id,
                from,
                to,
                added,
                modified,
                deleted,
                source,
            } => Trace::RevisionChanged {
                task_id,
                execution_id,
                from: from.0@,
                to: to.0@,
                added: views(added@),
                modified: views(modified@),
                deleted: views(deleted@),
                source,
            },
            PtcEvent::EvidenceRecorded { evidence } => Trace::Evidence(evidence),
        }
    }
}

/// A trace as plain values.
pub open spec fn traces(events: Seq<PtcEvent>) -> Seq<Trace> {
    events.map_values(|e: PtcEvent| e@)
}

/// Why an event could not be delivered.
#[derive(Debug, PartialEq, Eq)]
pub struct PtcEventSinkError(pub String);

impl Clone for PtcEventSinkError {
    fn clone(&self) -> (r: Self)
        ensures
            r == *self,
    {
        PtcEventSinkError(self.0.clone())
    }
}

impl PtcEventSinkError {
    /// An error with a message.
    pub fn new(message: &str) -> (r: PtcEventSinkError)
        ensures
            r.0@ == message@,
    {
        PtcEventSinkError(text(message))
    }
}

/// Where the events of a run are delivered.
///
/// `may_emit` relates an event to the answers that the sink may give; an
/// implementation is free to choose it.
pub trait PtcEventSink: Sized {
    /// Whether the sink may answer an event like this.
    /// A sink that does not say otherwise may answer anything.
    open spec fn may_emit(&self, event: PtcEvent, answer: Result<(), PtcEventSinkError>) -> bool {
        true
    }

    /// Delivers an event.
    fn emit(&self, event: &PtcEvent) -> (r: Result<(), PtcEventSinkError>)
        ensures
            self.may_emit(*event, r),
    ;
}

/// What a run has done so far.
#[derive(Debug, PartialEq, Eq)]
pub struct ExecState {
    pub execution: PtcExecution,
    pub current_revision: RevisionId,
    pub tool_calls: u64,
    pub process_calls: u64,
    pub interrupt_polls: u64,
    pub next_call_id: u64,
    pub events: Vec<PtcEvent>,
    /// The checkpoints the run made, the newest last.
    pub checkpoints: Vec<Checkpoint>,
    /// The first failure to deliver an event.
    pub sink_error: Option<PtcEventSinkError>,
    pub max_tool_calls: u64,
    pub max_processes: u64,
    pub max_interrupt_polls: Option<u64>,
}

/// The polls of the interrupt handler that a limit on instructions allows: the
/// quotient, rounded up.
pub open spec fn polls_allowed(limit: Option<u64>) -> Option<u64> {
    match limit {
        Some(n) => Some(((n + JS_INTERRUPT_COUNTER_INIT - 1) / JS_INTERRUPT_COUNTER_INIT as int) as u64),
        None => None,
    }
}

/// Whether two states differ in nothing but the trace and the delivery of it.
pub open spec fn same_but_trace(a: ExecState, b: ExecState) -> bool {
    &&& a.execution == b.execution
    &&& a.current_revision == b.current_revision
    &&& a.tool_calls == b.tool_calls
    &&& a.process_calls == b.process_calls
    &&& a.interrupt_polls == b.interrupt_polls
    &&& a.next_call_id == b.next_call_id
    &&& a.checkpoints@ == b.checkpoints@
    &&& a.max_tool_calls == b.max_tool_calls
    &&& a.max_processes == b.max_processes
    &&& a.max_interrupt_polls == b.max_interrupt_polls
}

/// A host call that has begun.
#[derive(Clone, Copy, Debug, PartialEq, Eq)]
pub struct OpenCall {
    pub call_id: u64,
    pub args_hash: u64,
    pub sink_failed: bool,
    /// Why the call is refused before anything runs.
    pub refusal: Option<&'static str>,
}

/// Why a call is refused before anything runs: an exhausted budget of calls,
/// else an undelivered event, else an exhausted budget of processes.
pub open spec fn refusal_of(state: ExecState, name: Seq<char>, sink_failed: bool, counted: bool) -> Option<
    Seq<char>,
> {
    if counted && state.tool_calls.wrapping_add(1) > state.max_tool_calls {
        Some("tool call budget exceeded"@)
    } else if sink_failed {
        Some("event sink failed"@)
    } else if name == "exec"@ && state.process_calls.wrapping_add(1) > state.max_processes {
        Some("process budget exceeded"@)
    } else {
        None
    }
}

/// Whether a call takes from the budget of processes.
pub open spec fn counts_process(
    state: ExecState,
    name: Seq<char>,
    sink_failed: bool,
    counted: bool,
) -> bool {
    &&& name == "exec"@
    &&& !sink_failed
    &&& !(counted && state.tool_calls.wrapping_add(1) > state.max_tool_calls)
}

/// An optional text.
pub open spec fn opt_str(s: Option<&'static str>) -> Option<Seq<char>> {
    match s {
        Some(s) => Some(s@),
        None => None,
    }
}

/// A hash after one more byte.
pub open spec fn hash_step(hash: u64, byte: u8) -> u64 {
    (hash ^ (byte as u64)).wrapping_mul(1099511628211)
}

/// The hash of bytes.
pub open spec fn hash_of(bytes: Seq<u8>) -> u64
    decreases bytes.len(),
{
    if bytes.len() == 0 {
        14695981039346656037u64
    } else {
        hash_step(hash_of(bytes.drop_last()), bytes.last())
    }
}

/// The hash of arguments: of the bytes of their compact form.
pub fn stable_args_hash(args: &Json) -> (r: u64)
    ensures
        r == hash_of(encode_utf8(args.compact())),
{
    let encoded = args.compact_text();
    let bytes = encoded.as_str().as_bytes();
    let ghost all = encode_utf8(args.compact());
    let mut hash: u64 = 14695981039346656037;
    let mut i: usize = 0;
    while i < bytes.len()
        invariant
            i <= bytes.len(),
            bytes@ == all,
            hash == hash_of(all.take(i as int)),
        decreases bytes.len() - i,
    {
        proof {
            assert(all.take(i + 1).drop_last() =~= all.take(i as int));
        }
        hash = (hash ^ (bytes[i] as u64)).wrapping_mul(1099511628211);
        i = i + 1;
    }
    proof {
        assert(all.take(i as int) =~= all);
    }
    hash
}

/// Whether a tool may change the workspace, so that its revision is looked at
/// before and after.
pub open spec fn tracks(name: Seq<char>) -> bool {
    name == "write"@ || name == "edit"@ || name == "exec"@ || name == "restore"@
}

/// Whether a tool may change the workspace.
pub fn tracks_revision(name: &str) -> (r: bool)
    ensures
        r == tracks(name@),
{
    same(name, "write") || same(name, "edit") || same(name, "exec") || same(name, "restore")
}

/// What is to be done for a call.
#[derive(Clone, Debug, PartialEq, Eq)]
pub enum ChildAction {
    /// Nothing runs; this is the output.
    Answer(Json),
    Read,
    Write,
    Edit,
    Glob,
    Grep,
    Exec,
    Checkpoint,
    Restore(Checkpoint),
}

/// What is to be done, as plain values.
pub enum Action {
    Answer(Seq<char>),
    Read,
    Write,
    Edit,
    Glob,
    Grep,
    Exec,
    Checkpoint,
    Restore(Checkpoint),
}

impl View for ChildAction {
    type V = Action;

    open spec fn view(&self) -> Action {
        match *self {
            ChildAction::Answer(json) => Action::Answer(json.text@),
            ChildAction::Read => Action::Read,
            ChildAction::Write => Action::Write,
            ChildAction::Edit => Action::Edit,
            ChildAction::Glob => Action::Glob,
            ChildAction::Grep => Action::Grep,
            ChildAction::Exec => Action::Exec,
            ChildAction::Checkpoint => Action::Checkpoint,
            ChildAction::Restore(c) => Action::Restore(c),
        }
    }
}

/// An output that reports an error.
pub fn error_output(message: &str) -> (r: Json)
    ensures
        r.text@ == error_json(message@),
{
    let mut s = text("{\"error\":");
    s.append(quote(message).as_str());
    s.append("}");
    Json { text: s }
}

/// The newest checkpoint of a number.
pub open spec fn newest(checkpoints: Seq<Checkpoint>, id: u64) -> Option<Checkpoint>
    decreases checkpoints.len(),
{
    if checkpoints.len() == 0 {
        None
    } else if checkpoints.last().id.0 == id {
        Some(checkpoints.last())
    } else {
        newest(checkpoints.drop_last(), id)
    }
}

/// What a restore comes to: the handle must be one that this run made, with the
/// revision it was made with.
pub open spec fn restore_by(
    checkpoints: Seq<Checkpoint>,
    id: Option<u64>,
    revision: Option<Seq<char>>,
) -> Action {
    let held = match id {
        Some(id) => newest(checkpoints, id),
        None => None,
    };
    match held {
        Some(c) => if revision == Some(c.revision.0@) {
            Action::Restore(c)
        } else {
            Action::Answer(error_json("checkpoint revision does not match handle"@))
        },
        None => Action::Answer(error_json("unknown checkpoint handle"@)),
    }
}

/// What a restore comes to, from its arguments.
pub open spec fn restore_action(checkpoints: Seq<Checkpoint>, args: Seq<char>) -> Action {
    restore_by(checkpoints, json_number(args, "/id"@), json_string(args, "/revision"@))
}

/// What is to be done for a call: a refusal and a cancellation come first, then
/// the policy on writes, then the tool itself.
pub open spec fn action_of(
    checkpoints: Seq<Checkpoint>,
    refusal: Option<Seq<char>>,
    name: Seq<char>,
    args: Seq<char>,
    can_write: bool,
    cancelled: bool,
) -> Action {
    if refusal is Some {
        Action::Answer(error_json(refusal->0))
    } else if cancelled {
        Action::Answer(error_json("cancelled"@))
    } else if name == "read"@ {
        Action::Read
    } else if name == "glob"@ {
        Action::Glob
    } else if name == "grep"@ {
        Action::Grep
    } else if name == "exec"@ {
        Action::Exec
    } else if name == "write"@ {
        if can_write {
            Action::Write
        } else {
            Action::Answer(error_json("write: disabled by policy"@))
        }
    } else if name == "edit"@ {
        if can_write {
            Action::Edit
        } else {
            Action::Answer(error_json("edit: disabled by policy"@))
        }
    } else if name == "checkpoint"@ {
        if can_write {
            Action::Checkpoint
        } else {
            Action::Answer(error_json("checkpoint: disabled by policy"@))
        }
    } else if name == "restore"@ {
        if can_write {
            restore_action(checkpoints, args)
        } else {
            Action::Answer(error_json("restore: disabled by policy"@))
        }
    } else {
        Action::Answer(error_json("unknown tool: "@ + name))
    }
}

/// A worker without the right to write is given no tool that writes: it writes and
/// edits no file, and makes and restores no checkpoint. Whether a command may run
/// is the policy of the tool that runs it.
pub proof fn law_read_only_workers_cannot_write(
    checkpoints: Seq<Checkpoint>,
    refusal: Option<Seq<char>>,
    name: Seq<char>,
    args: Seq<char>,
    cancelled: bool,
)
    ensures
        !(action_of(checkpoints, refusal, name, args, false, cancelled) is Write),
        !(action_of(checkpoints, refusal, name, args, false, cancelled) is Edit),
        !(action_of(checkpoints, refusal, name, args, false, cancelled) is Checkpoint),
        !(action_of(checkpoints, refusal, name, args, false, cancelled) is Restore),
{
}

/// A refused or cancelled call runs nothing.
pub proof fn law_refused_calls_run_nothing(
    checkpoints: Seq<Checkpoint>,
    refusal: Option<Seq<char>>,
    name: Seq<char>,
    args: Seq<char>,
    can_write: bool,
    cancelled: bool,
)
    requires
        refusal is Some || cancelled,
    ensures
        action_of(checkpoints, refusal, name, args, can_write, cancelled) is Answer,
{
}

/// What a made or restored checkpoint is answered.
fn checkpoint_output(id: u64, revision: &str) -> (r: Json)
    ensures
        r.text@ == checkpoint_json(id, revision@),
{
    let mut s = text("{\"id\":");
    s.append(decimal_text(id).as_str());
    s.append(",\"revision\":");
    s.append(quote(revision).as_str());
    s.append("}");
    Json { text: s }
}

/// What a restore is answered.
pub fn restored_output(checkpoint: &Checkpoint, restored: &Result<RevisionId, String>) -> (r: Json)
    ensures
        r.text@ == match *restored {
            Ok(revision) => checkpoint_json(checkpoint.id.0, revision.0@),
            Err(message) => error_json(message@),
        },
{
    match restored {
        Ok(revision) => checkpoint_output(checkpoint.id.0, revision.0.as_str()),
        Err(message) => error_output(message.as_str()),
    }
}

/// The output of a tool with its duration, where it is one of `exec` that
/// succeeded.
pub open spec fn timed(name: Seq<char>, output: Seq<char>, duration_ms: u64) -> Seq<char> {
    if name == "exec"@ && json_value(output, "/error"@) is None {
        match json_with_number(output, "durationMs"@, duration_ms) {
            Some(with) => with,
            None => output,
        }
    } else {
        output
    }
}

/// The revision after a call, where it was looked at.
pub open spec fn revision_after(
    name: Seq<char>,
    before: Option<RevisionId>,
    restored: Option<RevisionId>,
    current: Option<RevisionId>,
) -> Option<RevisionId> {
    if tracks(name) && before is Some {
        if restored is Some {
            restored
        } else {
            current
        }
    } else {
        None
    }
}

/// Whether a call was observed to change the workspace.
pub open spec fn changed(before: Option<RevisionId>, after: Option<RevisionId>) -> bool {
    match (before, after) {
        (Some(b), Some(a)) => b.0@ != a.0@,
        _ => false,
    }
}

/// The text of a revision, where there is one.
pub open spec fn revision_text(revision: Option<RevisionId>) -> Seq<char> {
    match revision {
        Some(r) => r.0@,
        None => Seq::empty(),
    }
}

/// What changed the workspace, by the tool that did.
pub open spec fn source_of(name: Seq<char>) -> RevisionSource {
    if name == "exec"@ {
        RevisionSource::Process
    } else if name == "restore"@ {
        RevisionSource::Restore
    } else {
        RevisionSource::Tool
    }
}

/// How a call ended that reports an error.
pub open spec fn error_outcome(error: Seq<char>) -> HostCallOutcome {
    if contains(error, "cancel"@) {
        HostCallOutcome::Cancelled
    } else if contains(error, "budget exceeded"@) {
        HostCallOutcome::BudgetExceeded
    } else {
        HostCallOutcome::Error
    }
}

/// How a call ended, from its output.
pub open spec fn outcome_of(output: Seq<char>) -> HostCallOutcome {
    if json_value(output, "/error"@) is None {
        HostCallOutcome::Succeeded
    } else {
        error_outcome(
            match reported_error(output) {
                Some(e) => e,
                None => ""@,
            },
        )
    }
}

/// Whether an entry of the trace says that a call ended in this way.
pub open spec fn ended_in(entry: Trace, outcome: HostCallOutcome) -> bool {
    entry matches Trace::Completed { outcome: o, ok, .. } && o == outcome && ok == (outcome
        is Succeeded)
}

/// A number of a stored result, as a list of none or one.
pub open spec fn id_at(output: Seq<char>, place: Seq<char>) -> Seq<ResultId> {
    match json_number(output, place) {
        Some(n) => seq![ResultId(n)],
        None => Seq::empty(),
    }
}

/// The stored results that an output names.
pub open spec fn ids_of(output: Seq<char>) -> Seq<ResultId> {
    id_at(output, "/stdoutId"@) + id_at(output, "/stderrId"@) + id_at(output, "/resultId"@)
}

/// The stored results that an output names.
pub fn result_ids(output: &Json) -> (r: Vec<ResultId>)
    ensures
        r@ == ids_of(output.text@),
{
    let mut out: Vec<ResultId> = Vec::new();
    match number_at(output.text.as_str(), "/stdoutId") {
        Some(n) => out.push(ResultId(n)),
        None => {},
    }
    match number_at(output.text.as_str(), "/stderrId") {
        Some(n) => out.push(ResultId(n)),
        None => {},
    }
    match number_at(output.text.as_str(), "/resultId") {
        Some(n) => out.push(ResultId(n)),
        None => {},
    }
    proof {
        assert(out@ =~= ids_of(output.text@));
    }
    out
}

/// The paths of a delta, in order: added, modified, deleted.
pub open spec fn delta_paths(delta: Option<WorkspaceDelta>) -> Seq<Seq<char>> {
    match delta {
        Some(d) => views(d.added@) + views(d.modified@) + views(d.deleted@),
        None => Seq::empty(),
    }
}

/// The parts of a delta; nothing where it is not known.
pub open spec fn delta_parts(delta: Option<WorkspaceDelta>) -> (
    Seq<Seq<char>>,
    Seq<Seq<char>>,
    Seq<Seq<char>>,
) {
    match delta {
        Some(d) => (views(d.added@), views(d.modified@), views(d.deleted@)),
        None => (Seq::empty(), Seq::empty(), Seq::empty()),
    }
}

/// What was observed of a call that ended.
#[derive(Debug, PartialEq, Eq)]
pub struct CallReport {
    pub output: Json,
    pub before: Option<RevisionId>,
    /// The revision a restore led to.
    pub restored: Option<RevisionId>,
    /// The revision as it is now, where it could be read.
    pub current: Option<RevisionId>,
    /// What changed, where it could be read.
    pub delta: Option<WorkspaceDelta>,
    pub duration_ms: u64,
}

impl CallReport {
    /// The revision after the call.
    pub open spec fn after(self, name: Seq<char>) -> Option<RevisionId> {
        revision_after(name, self.before, self.restored, self.current)
    }

    /// The entries that the end of a call adds to the trace.
    pub open spec fn entries(
        self,
        execution: PtcExecution,
        call: OpenCall,
        name: Seq<char>,
    ) -> Seq<Trace> {
        let output = timed(name, self.output.text@, self.duration_ms);
        let moved = changed(self.before, self.after(name));
        let (added, modified, deleted) = delta_parts(self.delta);
        (if moved {
            seq![
                Trace::RevisionChanged {
                    task_id: execution.task_id,
                    execution_id: execution.execution_id,
                    from: revision_text(self.before),
                    to: revision_text(self.after(name)),
                    added,
                    modified,
                    deleted,
                    source: source_of(name),
                },
            ]
        } else {
            Seq::empty()
        }).push(
            Trace::Completed {
                task_id: execution.task_id,
                execution_id: execution.execution_id,
                call_id: call.call_id,
                name,
                args_hash: call.args_hash,
                effects: ToolEffects { kind: effects_of(name), mutates_workspace: moved },
                outcome: outcome_of(output),
                ok: json_value(output, "/error"@) is None,
                duration_ms: self.duration_ms,
                result_ids: ids_of(output),
                paths: if moved {
                    delta_paths(self.delta)
                } else {
                    Seq::empty()
                },
            },
        )
    }
}

impl ExecState {
    /// A run that has done nothing yet.
    pub fn new(budget: &PtcBudget, execution: PtcExecution) -> (r: ExecState)
        ensures
            r.execution == execution,
            r.current_revision == execution.start_revision,
            r.tool_calls == 0,
            r.process_calls == 0,
            r.interrupt_polls == 0,
            r.next_call_id == 1,
            r.events@.len() == 0,
            r.checkpoints@.len() == 0,
            r.sink_error is None,
            r.max_tool_calls == budget.max_tool_calls,
            r.max_processes == budget.max_processes,
            r.max_interrupt_polls == polls_allowed(budget.instruction_limit),
    {
        let max_interrupt_polls = match budget.instruction_limit {
            Some(n) => {
                let quotient: u64 = n / JS_INTERRUPT_COUNTER_INIT;
                if n % JS_INTERRUPT_COUNTER_INIT == 0 {
                    Some(quotient)
                } else {
                    Some(quotient + 1)
                }
            },
            None => None,
        };
        let current_revision = execution.start_revision.clone();
        ExecState {
            execution,
            current_revision,
            tool_calls: 0,
            process_calls: 0,
            interrupt_polls: 0,
            next_call_id: 1,
            events: Vec::new(),
            checkpoints: Vec::new(),
            sink_error: None,
            max_tool_calls: budget.max_tool_calls as u64,
            max_processes: budget.max_processes as u64,
            max_interrupt_polls,
        }
    }

    /// Whether the run is to be interrupted: it was cancelled, its time is up,
    /// or it has used its instructions. Only a poll that passes the first two
    /// is counted.
    pub fn interrupted(&mut self, cancelled: bool, past_deadline: bool) -> (r: bool)
        ensures
            same_but_polls(*old(self), *final(self)),
            cancelled || past_deadline ==> r && final(self).interrupt_polls == old(
                self,
            ).interrupt_polls,
            !cancelled && !past_deadline ==> final(self).interrupt_polls == old(
                self,
            ).interrupt_polls.wrapping_add(1) && r == final(self).over_instructions(),
    {
        if cancelled || past_deadline {
            return true;
        }
        self.interrupt_polls = self.interrupt_polls.wrapping_add(1);
        self.instructions_exceeded()
    }

    /// Whether the run has used its instructions.
    pub open spec fn over_instructions(self) -> bool {
        match self.max_interrupt_polls {
            Some(max) => self.interrupt_polls > max,
            None => false,
        }
    }

    /// Whether the run has used its instructions.
    pub fn instructions_exceeded(&self) -> (r: bool)
        ensures
            r == self.over_instructions(),
    {
        match self.max_interrupt_polls {
            Some(max) => self.interrupt_polls > max,
            None => false,
        }
    }

    /// Adds an event to the trace and delivers it. Once a delivery failed, the
    /// first failure stands and nothing more is delivered.
    pub fn emit_event<S: PtcEventSink>(&mut self, sink: Option<&S>, event: PtcEvent) -> (r: Result<
        (),
        PtcEventSinkError,
    >)
        ensures
            same_but_trace(*old(self), *final(self)),
            final(self).events@ == old(self).events@.push(event),
            old(self).sink_error is Some ==> final(self).sink_error == old(self).sink_error && r
                == Err::<(), PtcEventSinkError>(old(self).sink_error->0),
            old(self).sink_error is None && sink is None ==> final(self).sink_error is None
                && r is Ok,
            old(self).sink_error is None && sink is Some ==> (sink->0).may_emit(event, r)
                && final(self).sink_error == error_of(r),
            delivered(sink, event, old(self).sink_error, final(self).sink_error),
    {
        let known = match &self.sink_error {
            Some(e) => Some(e.clone()),
            None => None,
        };
        match known {
            Some(e) => {
                self.events.push(event);
                return Err(e);
            },
            None => {},
        }
        let answer = match sink {
            None => Ok(()),
            Some(s) => s.emit(&event),
        };
        self.events.push(event);
        match &answer {
            Ok(_) => {},
            Err(e) => {
                self.sink_error = Some(e.clone());
            },
        }
        answer
    }

    /// Begins a host call: numbers it, adds it to the trace and counts it
    /// against the budgets.
    pub fn begin_call<S: PtcEventSink>(
        &mut self,
        sink: Option<&S>,
        name: &str,
        args: &Json,
        counted: bool,
    ) -> (r: OpenCall)
        ensures
            r.call_id == old(self).next_call_id,
            r.args_hash == hash_of(encode_utf8(args.compact())),
            opt_str(r.refusal) == refusal_of(*old(self), name@, r.sink_failed, counted),
            old(self).sink_error is Some ==> r.sink_failed,
            old(self).sink_error is None && sink is None ==> !r.sink_failed,
            r.sink_failed == (final(self).sink_error is Some),
            delivered(
                sink,
                final(self).events@.last(),
                old(self).sink_error,
                final(self).sink_error,
            ),
            final(self).execution == old(self).execution,
            final(self).current_revision == old(self).current_revision,
            final(self).interrupt_polls == old(self).interrupt_polls,
            final(self).checkpoints@ == old(self).checkpoints@,
            final(self).max_tool_calls == old(self).max_tool_calls,
            final(self).max_processes == old(self).max_processes,
            final(self).max_interrupt_polls == old(self).max_interrupt_polls,
            final(self).next_call_id == old(self).next_call_id.wrapping_add(1),
            final(self).tool_calls == if counted {
                old(self).tool_calls.wrapping_add(1)
            } else {
                old(self).tool_calls
            },
            final(self).process_calls == if counts_process(
                *old(self),
                name@,
                r.sink_failed,
                counted,
            ) {
                old(self).process_calls.wrapping_add(1)
            } else {
                old(self).process_calls
            },
            traces(final(self).events@) == traces(old(self).events@).push(
                Trace::Started {
                    task_id: old(self).execution.task_id,
                    execution_id: old(self).execution.execution_id,
                    call_id: r.call_id,
                    name: name@,
                    args_hash: r.args_hash,
                },
            ),
    {
        let call_id: u64 = self.next_call_id;
        self.next_call_id = self.next_call_id.wrapping_add(1);
        let args_hash: u64 = stable_args_hash(args);
        let event = PtcEvent::HostCallStarted {
            task_id: self.execution.task_id,
            execution_id: self.execution.execution_id,
            call_id,
            name: text(name),
            args_hash,
        };
        let ghost was = self.events@;
        let ghost entry = event;
        let sink_failed = match self.emit_event(sink, event) {
            Ok(_) => false,
            Err(_) => true,
        };
        proof {
            assert(traces(self.events@) =~= traces(was).push(entry@));
        }
        let mut refusal: Option<&'static str> = if sink_failed {
            Some("event sink failed")
        } else {
            None
        };
        if counted {
            self.tool_calls = self.tool_calls.wrapping_add(1);
            if self.tool_calls > self.max_tool_calls {
                refusal = Some("tool call budget exceeded");
            }
        }
        if refusal.is_none() && same(name, "exec") {
            self.process_calls = self.process_calls.wrapping_add(1);
            if self.process_calls > self.max_processes {
                refusal = Some("process budget exceeded");
            }
        }
        OpenCall { call_id, args_hash, sink_failed, refusal }
    }

    /// What is to be done for a call that has begun.
    pub fn next_action(
        &self,
        call: &OpenCall,
        name: &str,
        args: &Json,
        can_write: bool,
        cancelled: bool,
    ) -> (r: ChildAction)
        ensures
            r@ == action_of(
                self.checkpoints@,
                opt_str(call.refusal),
                name@,
                args.text@,
                can_write,
                cancelled,
            ),
            // A handle that was handed out is understood when it comes back.
            forall|id: u64, revision: Seq<char>|
                name@ == "restore"@ && args.text@ == #[trigger] checkpoint_json(id, revision)
                    && can_write && !cancelled && call.refusal is None ==> r@ == restore_by(
                    self.checkpoints@,
                    Some(id),
                    Some(revision),
                ),
    {
        proof {
            reveal_strlit("read");
            reveal_strlit("glob");
            reveal_strlit("grep");
            reveal_strlit("exec");
            reveal_strlit("write");
            reveal_strlit("edit");
            reveal_strlit("checkpoint");
            reveal_strlit("restore");
            assert("restore"@.len() == 7);
            assert("read"@.len() == 4 && "glob"@.len() == 4 && "grep"@.len() == 4);
            assert("exec"@.len() == 4 && "edit"@.len() == 4 && "write"@.len() == 5);
            assert("checkpoint"@.len() == 10);
        }
        match call.refusal {
            Some(error) => {
                return ChildAction::Answer(error_output(error));
            },
            None => {},
        }
        if cancelled {
            return ChildAction::Answer(error_output("cancelled"));
        }
        if same(name, "read") {
            ChildAction::Read
        } else if same(name, "glob") {
            ChildAction::Glob
        } else if same(name, "grep") {
            ChildAction::Grep
        } else if same(name, "exec") {
            ChildAction::Exec
        } else if same(name, "write") {
            if can_write {
                ChildAction::Write
            } else {
                ChildAction::Answer(error_output("write: disabled by policy"))
            }
        } else if same(name, "edit") {
            if can_write {
                ChildAction::Edit
            } else {
                ChildAction::Answer(error_output("edit: disabled by policy"))
            }
        } else if same(name, "checkpoint") {
            if can_write {
                ChildAction::Checkpoint
            } else {
                ChildAction::Answer(error_output("checkpoint: disabled by policy"))
            }
        } else if same(name, "restore") {
            if can_write {
                self.plan_restore(args)
            } else {
                ChildAction::Answer(error_output("restore: disabled by policy"))
            }
        } else {
            let mut message = text("unknown tool: ");
            message.append(name);
            ChildAction::Answer(error_output(message.as_str()))
        }
    }

    fn plan_restore(&self, args: &Json) -> (r: ChildAction)
        ensures
            r@ == restore_action(self.checkpoints@, args.text@),
            forall|id: u64, revision: Seq<char>|
                args.text@ == #[trigger] checkpoint_json(id, revision) ==> r@ == restore_by(
                    self.checkpoints@,
                    Some(id),
                    Some(revision),
                ),
    {
        let held = match number_at(args.text.as_str(), "/id") {
            Some(id) => self.find_checkpoint(id),
            None => None,
        };
        let revision = string_at(args.text.as_str(), "/revision");
        match held {
            None => ChildAction::Answer(error_output("unknown checkpoint handle")),
            Some(checkpoint) => {
                let matches = match revision {
                    Some(revision) => same(revision.as_str(), checkpoint.revision.0.as_str()),
                    None => false,
                };
                if matches {
                    ChildAction::Restore(checkpoint)
                } else {
                    ChildAction::Answer(error_output("checkpoint revision does not match handle"))
                }
            },
        }
    }

    /// The newest checkpoint of a number.
    pub fn find_checkpoint(&self, id: u64) -> (r: Option<Checkpoint>)
        ensures
            r == newest(self.checkpoints@, id),
    {
        let mut i: usize = self.checkpoints.len();
        let ghost all = self.checkpoints@;
        proof {
            assert(all.take(i as int) =~= all);
        }
        while i > 0
            invariant
                i <= all.len(),
                all == self.checkpoints@,
                newest(all.take(i as int), id) == newest(all, id),
            decreases i,
        {
            proof {
                assert(all.take(i as int).drop_last() =~= all.take(i - 1));
                assert(all.take(i as int).last() == all[i - 1]);
            }
            if self.checkpoints[i - 1].id.0 == id {
                return Some(self.checkpoints[i - 1].clone());
            }
            i = i - 1;
        }
        None
    }

    /// Takes up the answer to a checkpoint that was asked for. A handle that was
    /// made is kept, so that this run may restore it.
    pub fn checkpointed(&mut self, made: Result<Checkpoint, String>) -> (r: Json)
        ensures
            match made {
                Ok(c) => r.text@ == checkpoint_json(c.id.0, c.revision.0@)
                    && final(self).checkpoints@ == old(self).checkpoints@.push(c),
                Err(message) => r.text@ == error_json(message@) && final(self).checkpoints@ == old(
                    self,
                ).checkpoints@,
            },
            final(self).events@ == old(self).events@,
            final(self).sink_error == old(self).sink_error,
            final(self).execution == old(self).execution,
            final(self).current_revision == old(self).current_revision,
            final(self).tool_calls == old(self).tool_calls,
            final(self).process_calls == old(self).process_calls,
            final(self).interrupt_polls == old(self).interrupt_polls,
            final(self).next_call_id == old(self).next_call_id,
            final(self).max_tool_calls == old(self).max_tool_calls,
            final(self).max_processes == old(self).max_processes,
            final(self).max_interrupt_polls == old(self).max_interrupt_polls,
    {
        match made {
            Ok(checkpoint) => {
                let output = checkpoint_output(
                    checkpoint.id.0,
                    checkpoint.revision.0.as_str(),
                );
                self.checkpoints.push(checkpoint);
                output
            },
            Err(message) => error_output(message.as_str()),
        }
    }

    /// Ends a host call: adds what it changed and how it ended to the trace, and
    /// gives its output.
    pub fn end_call<S: PtcEventSink>(
        &mut self,
        sink: Option<&S>,
        call: &OpenCall,
        name: &str,
        report: CallReport,
    ) -> (r: Json)
        ensures
            r.text@ == timed(name@, report.output.text@, report.duration_ms),
            traces(final(self).events@) == traces(old(self).events@) + report.entries(
                old(self).execution,
                *call,
                name@,
            ),
            // A refusal and an error are handed on as they are, and the trace says so.
            forall|message: Seq<char>|
                report.output.text@ == #[trigger] error_json(message) ==> r.text@ == error_json(
                    message,
                ) && ended_in(traces(final(self).events@).last(), error_outcome(message)),
            // A checkpoint that was made or restored is one that succeeded.
            forall|id: u64, revision: Seq<char>|
                report.output.text@ == #[trigger] checkpoint_json(id, revision) && name@ != "exec"@
                    ==> r.text@ == checkpoint_json(id, revision) && ended_in(
                    traces(final(self).events@).last(),
                    HostCallOutcome::Succeeded,
                ),
            final(self).current_revision == if changed(report.before, report.after(name@)) {
                report.after(name@)->0
            } else {
                old(self).current_revision
            },
            ({
                let n = old(self).events@.len() as int;
                let told = final(self).events@;
                if changed(report.before, report.after(name@)) {
                    exists|between: Option<PtcEventSinkError>| #[trigger]
                        delivered(sink, told[n], old(self).sink_error, between) && delivered(
                            sink,
                            told[n + 1],
                            between,
                            final(self).sink_error,
                        )
                } else {
                    delivered(sink, told[n], old(self).sink_error, final(self).sink_error)
                }
            }),
            final(self).execution == old(self).execution,
            final(self).tool_calls == old(self).tool_calls,
            final(self).process_calls == old(self).process_calls,
            final(self).interrupt_polls == old(self).interrupt_polls,
            final(self).next_call_id == old(self).next_call_id,
            final(self).checkpoints@ == old(self).checkpoints@,
            final(self).max_tool_calls == old(self).max_tool_calls,
            final(self).max_processes == old(self).max_processes,
            final(self).max_interrupt_polls == old(self).max_interrupt_polls,
    {
        let ghost was = self.events@;
        let ghost given = report;
        let output = timed_output(name, report.output, report.duration_ms);
        let ok = value_at(output.text.as_str(), "/error").is_none();
        let after = if tracks_revision(name) && report.before.is_some() {
            match report.restored {
                Some(revision) => Some(revision),
                None => report.current,
            }
        } else {
            None
        };
        let mut effects = tool_effects(name);
        let mut paths: Vec<String> = Vec::new();
        let moved = match (&report.before, &after) {
            (Some(b), Some(a)) => !b.same(a),
            _ => false,
        };
        if moved {
            match (report.before, after) {
                (Some(from), Some(to)) => {
                    effects.mutates_workspace = true;
                    let (added, modified, deleted) = match report.delta {
                        Some(delta) => (delta.added, delta.modified, delta.deleted),
                        None => (Vec::new(), Vec::new(), Vec::new()),
                    };
                    proof {
                        assert(views(added@) =~= delta_parts(given.delta).0);
                        assert(views(modified@) =~= delta_parts(given.delta).1);
                        assert(views(deleted@) =~= delta_parts(given.delta).2);
                    }
                    paths = chained(&added, &modified, &deleted);
                    proof {
                        assert(views(paths@) =~= delta_paths(given.delta));
                    }
                    self.current_revision = to.clone();
                    let source = if same(name, "exec") {
                        RevisionSource::Process
                    } else if same(name, "restore") {
                        RevisionSource::Restore
                    } else {
                        RevisionSource::Tool
                    };
                    let event = PtcEvent::WorkspaceRevisionChanged {
                        task_id: self.execution.task_id,
                        execution_id: self.execution.execution_id,
                        from,
                        to,
                        added,
                        modified,
                        deleted,
                        source,
                    };
                    let ghost entry = event;
                    let _ = self.emit_event(sink, event);
                    proof {
                        assert(traces(self.events@) =~= traces(was).push(entry@));
                        assert(self.events@ == was.push(entry));
                        assert(delivered(sink, entry, old(self).sink_error, self.sink_error));
                    }
                },
                _ => {},
            }
        }
        let ghost between = self.events@;
        let ghost failed = self.sink_error;
        let ghost touched = views(paths@);
        proof {
            assert(moved == changed(given.before, given.after(name@)));
            if !moved {
                assert(touched =~= Seq::<Seq<char>>::empty());
                assert(between == was);
            } else {
                assert(delivered(sink, between[was.len() as int], old(self).sink_error, failed));
            }
        }
        let ids = result_ids(&output);
        let outcome = call_outcome(&output, ok);
        let event = PtcEvent::HostCallCompleted {
            task_id: self.execution.task_id,
            execution_id: self.execution.execution_id,
            call_id: call.call_id,
            name: text(name),
            args_hash: call.args_hash,
            effects,
            outcome,
            ok,
            duration_ms: report.duration_ms,
            result_ids: ids,
            paths,
        };
        let ghost entry = event;
        let _ = self.emit_event(sink, event);
        proof {
            let added = given.entries(old(self).execution, *call, name@);
            assert(traces(self.events@) =~= traces(between).push(entry@));
            assert(entry@ == added.last());
            assert(traces(between) =~= traces(was) + added.drop_last());
            assert(traces(self.events@) =~= traces(was) + added);
            let told = self.events@;
            assert(told == between.push(entry));
            assert(delivered(sink, told.last(), failed, self.sink_error));
            if moved {
                assert(told[was.len() as int] == between[was.len() as int]);
                assert(delivered(sink, told[was.len() as int], old(self).sink_error, failed));
            }
        }
        output
    }

    /// Takes up the answer to an integration: the run goes on from the revision
    /// it led to.
    pub fn integrated(&mut self, response: &IntegrationResponse)
        ensures
            final(self).current_revision == match response.parent_revision {
                Some(revision) => revision,
                None => old(self).current_revision,
            },
            final(self).events@ == old(self).events@,
            final(self).sink_error == old(self).sink_error,
            final(self).execution == old(self).execution,
            final(self).tool_calls == old(self).tool_calls,
            final(self).process_calls == old(self).process_calls,
            final(self).interrupt_polls == old(self).interrupt_polls,
            final(self).next_call_id == old(self).next_call_id,
            final(self).checkpoints@ == old(self).checkpoints@,
            final(self).max_tool_calls == old(self).max_tool_calls,
            final(self).max_processes == old(self).max_processes,
            final(self).max_interrupt_polls == old(self).max_interrupt_polls,
    {
        match &response.parent_revision {
            Some(revision) => {
                self.current_revision = revision.clone();
            },
            None => {},
        }
    }

    /// Counts a background process against the same budget as `exec`: a
    /// long-lived process is still a process.
    pub fn count_process(&mut self) -> (r: Result<(), String>)
        ensures
            same_but_processes(*old(self), *final(self)),
            final(self).process_calls == old(self).process_calls.wrapping_add(1),
            match r {
                Ok(_) => final(self).process_calls <= final(self).max_processes,
                Err(message) => final(self).process_calls > final(self).max_processes && message@
                    == "process budget exceeded"@,
            },
    {
        self.process_calls = self.process_calls.wrapping_add(1);
        if self.process_calls > self.max_processes {
            return Err(text("process budget exceeded"));
        }
        Ok(())
    }
}

/// How the delivery of an event leaves what is known to have failed: the first
/// failure stands and nothing more is delivered; else it is as the sink answered.
pub open spec fn delivered<S: PtcEventSink>(
    sink: Option<&S>,
    event: PtcEvent,
    before: Option<PtcEventSinkError>,
    after: Option<PtcEventSinkError>,
) -> bool {
    match (before, sink) {
        (Some(_), _) => after == before,
        (None, None) => after is None,
        (None, Some(s)) => exists|answer: Result<(), PtcEventSinkError>| #[trigger]
            s.may_emit(event, answer) && after == error_of(answer),
    }
}

/// The error of an answer.
pub open spec fn error_of(r: Result<(), PtcEventSinkError>) -> Option<PtcEventSinkError> {
    match r {
        Ok(_) => None,
        Err(e) => Some(e),
    }
}

/// Whether two states differ in nothing but the count of polls.
pub open spec fn same_but_polls(a: ExecState, b: ExecState) -> bool {
    &&& a.execution == b.execution
    &&& a.current_revision == b.current_revision
    &&& a.tool_calls == b.tool_calls
    &&& a.process_calls == b.process_calls
    &&& a.next_call_id == b.next_call_id
    &&& a.events@ == b.events@
    &&& a.checkpoints@ == b.checkpoints@
    &&& a.sink_error == b.sink_error
    &&& a.max_tool_calls == b.max_tool_calls
    &&& a.max_processes == b.max_processes
    &&& a.max_interrupt_polls == b.max_interrupt_polls
}

/// Whether two states differ in nothing but the count of processes.
pub open spec fn same_but_processes(a: ExecState, b: ExecState) -> bool {
    &&& a.execution == b.execution
    &&& a.current_revision == b.current_revision
    &&& a.tool_calls == b.tool_calls
    &&& a.interrupt_polls == b.interrupt_polls
    &&& a.next_call_id == b.next_call_id
    &&& a.events@ == b.events@
    &&& a.checkpoints@ == b.checkpoints@
    &&& a.sink_error == b.sink_error
    &&& a.max_tool_calls == b.max_tool_calls
    &&& a.max_processes == b.max_processes
    &&& a.max_interrupt_polls == b.max_interrupt_polls
}

fn timed_output(name: &str, output: Json, duration_ms: u64) -> (r: Json)
    ensures
        r.text@ == timed(name@, output.text@, duration_ms),
        forall|message: Seq<char>|
            output.text@ == #[trigger] error_json(message) ==> r.text@ == output.text@,
{
    if same(name, "exec") && value_at(output.text.as_str(), "/error").is_none() {
        match insert_number(output.text.as_str(), "durationMs", duration_ms) {
            Some(with) => Json { text: with },
            None => output,
        }
    } else {
        output
    }
}

fn call_outcome(output: &Json, ok: bool) -> (r: HostCallOutcome)
    requires
        ok == (json_value(output.text@, "/error"@) is None),
    ensures
        r == outcome_of(output.text@),
        forall|message: Seq<char>|
            output.text@ == #[trigger] error_json(message) ==> r == if ok {
                HostCallOutcome::Succeeded
            } else {
                error_outcome(message)
            },
{
    if ok {
        return HostCallOutcome::Succeeded;
    }
    let error = match string_at(output.text.as_str(), "/error") {
        Some(e) => e,
        None => text(""),
    };
    if contains_text(error.as_str(), "cancel") {
        HostCallOutcome::Cancelled
    } else if contains_text(error.as_str(), "budget exceeded") {
        HostCallOutcome::BudgetExceeded
    } else {
        HostCallOutcome::Error
    }
}

fn push_all(out: &mut Vec<String>, items: &Vec<String>)
    ensures
        views(final(out)@) == views(old(out)@) + views(items@),
{
    let ghost was = out@;
    let mut i: usize = 0;
    proof {
        assert(views(out@) =~= views(was) + views(items@).take(0));
    }
    while i < items.len()
        invariant
            i <= items.len(),
            views(out@) == views(was) + views(items@).take(i as int),
        decreases items.len() - i,
    {
        let ghost before = out@;
        out.push(items[i].clone());
        proof {
            assert(views(out@) =~= views(before).push(items@[i as int]@));
            assert(views(items@).take(i + 1) =~= views(items@).take(i as int).push(
                views(items@)[i as int],
            ));
            assert(views(out@) =~= views(was) + views(items@).take(i + 1));
        }
        i = i + 1;
    }
    proof {
        assert(views(items@).take(i as int) =~= views(items@));
    }
}

fn chained(a: &Vec<String>, b: &Vec<String>, c: &Vec<String>) -> (r: Vec<String>)
    ensures
        views(r@) == views(a@) + views(b@) + views(c@),
{
    let mut out: Vec<String> = Vec::new();
    push_all(&mut out, a);
    push_all(&mut out, b);
    push_all(&mut out, c);
    proof {
        assert(views(Seq::<String>::empty()) =~= Seq::<Seq<char>>::empty());
        assert(views(out@) =~= views(a@) + views(b@) + views(c@));
    }
    out
}

/// A budget of calls is kept: a counted call beyond it is refused.
pub proof fn law_call_budget_is_kept(state: ExecState, name: Seq<char>, sink_failed: bool)
    requires
        state.tool_calls >= state.max_tool_calls,
        state.tool_calls < u64::MAX,
    ensures
        refusal_of(state, name, sink_failed, true) == Some("tool call budget exceeded"@),
{
}

/// A checkpoint that a run made is found by its number, and the others are found
/// as before.
pub proof fn law_made_checkpoints_are_found(checkpoints: Seq<Checkpoint>, c: Checkpoint, id: u64)
    ensures
        newest(checkpoints.push(c), c.id.0) == Some(c),
        id != c.id.0 ==> newest(checkpoints.push(c), id) == newest(checkpoints, id),
{
    assert(checkpoints.push(c).drop_last() =~= checkpoints);
}

/// The handle of a checkpoint that a run made restores that checkpoint, and a
/// handle with another revision restores none.
pub proof fn law_handles_restore_their_checkpoint(
    checkpoints: Seq<Checkpoint>,
    c: Checkpoint,
    revision: Seq<char>,
)
    ensures
        restore_by(checkpoints.push(c), Some(c.id.0), Some(c.revision.0@)) == Action::Restore(c),
        revision != c.revision.0@ ==> restore_by(
            checkpoints.push(c),
            Some(c.id.0),
            Some(revision),
        ) is Answer,
{
    law_made_checkpoints_are_found(checkpoints, c, c.id.0);
}

} // verus!
