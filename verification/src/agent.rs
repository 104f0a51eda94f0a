//! The loop of an agent: windows of turns over a durable task. A window that
//! fills up rolls over into a fresh one, and only an accepted finish completes
//! the task.
use vstd::prelude::*;
use vstd::string::StringExecFns;
use crate::checkpoint::CheckpointError;
use crate::context::ContextError;
use crate::delegation::{batch_delegated, delegate_batch_sync, delegate_sync, delegated, AgentSpawnOptions, AgentState, DelegateResult, DelegationHost};
use crate::goal::TaskStatus;
use crate::hostline::{DelegationCall, HostLine};
use crate::identity::{AgentId, ProcessId, RevisionId, TaskId};
use crate::json::Json;
use crate::model::{ModelError, ModelEvent, ModelOutput};
use crate::ptc::calls::{debug_shown, debug_text};
use crate::ptc::prelude::{Prelude, PreludeError, PreludeOrigin};
use crate::ptc::runtime::{Outcome, PtcEvent, PtcExecution, PtcOutcome};
use crate::ptc::trust::{Trust, TrustDecision, TrustError};
use crate::runtime::{reports_task, task_reports, TaskReport};
use crate::session::{EventRecord, SessionError, SessionEvent, TaskView};
use crate::text::{decimal, decimal_text, head, hex, hex16, join, joined, opt_view, take_chars, text, words, words_text};

verus! {

/// What a user asks of a running loop.
#[derive(Clone, Debug, PartialEq, Eq)]
pub enum AgentControl {
    Steer(String),
    Interrupt,
}

/// Why a discovered prelude did not run.
#[derive(Clone, Copy, Debug, PartialEq, Eq, Structural)]
pub enum PreludeRejection {
    /// The operator declined it at the confirmation prompt.
    Declined,
    /// Declined in an earlier run; the recorded decision still stands.
    PreviouslyRejected,
    /// Nothing could ask.
    CannotConfirm,
    /// No user config directory, so no tamper-proof place to record trust.
    NoTrustStore,
}

impl PreludeRejection {
    /// What the operator is told.
    pub open spec fn text(self) -> Seq<char> {
        match self {
            PreludeRejection::Declined => "declined at the confirmation prompt"@,
            PreludeRejection::PreviouslyRejected => "previously declined for this exact content"@,
            PreludeRejection::CannotConfirm =>
            "not confirmed: this run cannot prompt, so an unreviewed prelude is refused"@,
            PreludeRejection::NoTrustStore =>
            "no user config directory, so a trust decision cannot be recorded"@,
        }
    }

    /// What the operator is told.
    pub fn explain(self) -> (r: &'static str)
        ensures
            r@ == self.text(),
    {
        match self {
            PreludeRejection::Declined => "declined at the confirmation prompt",
            PreludeRejection::PreviouslyRejected => "previously declined for this exact content",
            PreludeRejection::CannotConfirm =>
            "not confirmed: this run cannot prompt, so an unreviewed prelude is refused",
            PreludeRejection::NoTrustStore =>
            "no user config directory, so a trust decision cannot be recorded",
        }
    }
}

/// What is told while a loop runs.
#[derive(Clone, Debug, PartialEq, Eq)]
pub enum AgentEvent {
    Model(ModelEvent),
    PreludeLoaded { path: String, described: bool },
    PreludeRejected { path: String, reason: PreludeRejection },
    /// A fresh context window opened for the task.
    ContextWindowStarted { window: u32 },
    /// The previous window was compacted into durable semantic state.
    Compacted { window: u32, tokens: usize },
    /// The model emitted a progress message; the task is still active.
    AssistantMessage { content: String },
    FinishProposed { accepted: bool, objections: Vec<String> },
    TaskCompleted { summary: String },
    GoalUpdated,
    AgentSpawned { agent: AgentId, objective: String },
    AgentSettled { agent: AgentId, state: AgentState },
    ProcessSpawned { process: ProcessId, argv: Vec<String> },
    ProcessExited { process: ProcessId, exit_code: Option<i64> },
    PtcStarted,
    PtcHostCallStarted { call_id: u64, name: String },
    PtcHostCallCompleted { call_id: u64, name: String, ok: bool, duration_ms: u64 },
    EvidenceRecorded { kind: String, ok: bool },
    SteeringQueued { content: String },
    SteeringApplied { content: String },
    RepeatedActionDetected { fingerprint: String },
    ToolCompleted { outcome: String, tool_calls: usize, duration_ms: u64 },
}

/// Why a loop stopped before the task was complete.
#[derive(Clone, Debug, PartialEq, Eq)]
pub enum AgentError {
    Session(SessionError),
    Workspace(String),
    Checkpoint(CheckpointError),
    Model(ModelError),
    Context(ContextError),
    Prelude(PreludeError),
    Trust(TrustError),
    Cancelled,
    /// The task crossed its context-window ceiling without finishing.
    WindowLimit(u32),
}

impl AgentError {
    /// The message of the error.
    pub open spec fn text(self) -> Seq<char> {
        match self {
            AgentError::Session(error) => error.text(),
            AgentError::Workspace(message) => message@,
            AgentError::Checkpoint(error) => error.text(),
            AgentError::Model(error) => error@.text(),
            AgentError::Context(error) => error.text(),
            AgentError::Prelude(error) => error.text(),
            AgentError::Trust(error) => error.text(),
            AgentError::Cancelled => "agent cancelled"@,
            AgentError::WindowLimit(limit) => "task did not converge within "@ + decimal(
                limit as nat,
            ) + " context windows"@,
        }
    }

    /// The message of the error.
    pub fn message(&self) -> (r: String)
        ensures
            r@ == self.text(),
    {
        match self {
            AgentError::Session(error) => error.message(),
            AgentError::Workspace(message) => message.clone(),
            AgentError::Checkpoint(error) => error.message(),
            AgentError::Model(error) => error.message(),
            AgentError::Context(error) => error.message(),
            AgentError::Prelude(error) => error.message(),
            AgentError::Trust(error) => error.message(),
            AgentError::Cancelled => text("agent cancelled"),
            AgentError::WindowLimit(limit) => {
                let mut s = text("task did not converge within ");
                s.append(decimal_text(*limit as u64).as_str());
                s.append(" context windows");
                s
            },
        }
    }
}

/// How a run of the loop ended.
#[derive(Clone, Debug, PartialEq, Eq)]
pub enum TaskOutcome {
    /// The finish was accepted; the task is complete.
    Completed(String),
    /// The model reported progress and waits for the user. The task stays active
    /// and durable.
    AwaitingUser(String),
}

impl TaskOutcome {
    /// What the run ended with.
    pub open spec fn text(self) -> Seq<char> {
        match self {
            TaskOutcome::Completed(s) => s@,
            TaskOutcome::AwaitingUser(s) => s@,
        }
    }

    /// What the run ended with.
    pub fn message(&self) -> (r: &str)
        ensures
            r@ == self.text(),
    {
        match self {
            TaskOutcome::Completed(s) => s.as_str(),
            TaskOutcome::AwaitingUser(s) => s.as_str(),
        }
    }

    /// Whether the task is complete.
    pub fn is_complete(&self) -> (r: bool)
        ensures
            r == (self is Completed),
    {
        match self {
            TaskOutcome::Completed(_) => true,
            TaskOutcome::AwaitingUser(_) => false,
        }
    }
}

/// What follows from the origin of a prelude and from what is recorded of it.
#[derive(Clone, Copy, Debug, PartialEq, Eq, Structural)]
pub enum PreludeStep {
    Use,
    Reject(PreludeRejection),
    /// The operator is to be asked, and the answer to be recorded.
    Ask,
}

/// What follows from the origin of a prelude, from what the trust store says of
/// it where there is one, and from whether the operator can be asked.
pub open spec fn prelude_step(
    origin: PreludeOrigin,
    store: Option<Trust>,
    can_ask: bool,
) -> PreludeStep {
    if !(origin is Workspace) {
        PreludeStep::Use
    } else {
        match store {
            None => PreludeStep::Reject(PreludeRejection::NoTrustStore),
            Some(Trust::Trusted) => PreludeStep::Use,
            Some(Trust::Rejected) => PreludeStep::Reject(PreludeRejection::PreviouslyRejected),
            Some(Trust::Unknown) => if can_ask {
                PreludeStep::Ask
            } else {
                PreludeStep::Reject(PreludeRejection::CannotConfirm)
            },
        }
    }
}

/// Whether a discovered prelude may run. Only one that arrives with a repository
/// needs a decision; without a place to record one, or without anybody to ask,
/// it is refused.
pub fn authorize_prelude(prelude: &Prelude, store: Option<Trust>, can_ask: bool) -> (r: PreludeStep)
    ensures
        r == prelude_step(prelude.origin, store, can_ask),
{
    if !prelude.origin.requires_confirmation() {
        return PreludeStep::Use;
    }
    match store {
        None => PreludeStep::Reject(PreludeRejection::NoTrustStore),
        Some(Trust::Trusted) => PreludeStep::Use,
        Some(Trust::Rejected) => PreludeStep::Reject(PreludeRejection::PreviouslyRejected),
        Some(Trust::Unknown) => if can_ask {
            PreludeStep::Ask
        } else {
            PreludeStep::Reject(PreludeRejection::CannotConfirm)
        },
    }
}

/// What follows from the operator's answer.
pub fn prelude_answered(decision: TrustDecision) -> (r: PreludeStep)
    ensures
        r == match decision {
            TrustDecision::Trusted => PreludeStep::Use,
            TrustDecision::Rejected => PreludeStep::Reject(PreludeRejection::Declined),
        },
{
    match decision {
        TrustDecision::Trusted => PreludeStep::Use,
        TrustDecision::Rejected => PreludeStep::Reject(PreludeRejection::Declined),
    }
}

/// A prelude that arrives with a repository runs only where it was trusted
/// before; else the operator is asked, or it is refused.
pub proof fn law_workspace_preludes_need_trust(store: Option<Trust>, can_ask: bool)
    ensures
        prelude_step(PreludeOrigin::Workspace, store, can_ask) is Use <==> store == Some(
            Trust::Trusted,
        ),
        !can_ask ==> !(prelude_step(PreludeOrigin::Workspace, store, can_ask) is Ask),
{
}

/// What a loop has journaled or told, in order.
#[derive(Clone, Debug, PartialEq, Eq)]
pub enum Effect {
    Journal(SessionEvent),
    Tell(AgentEvent),
    SetStatus { status: TaskStatus, reason: Option<String> },
    /// The task is journaled as interrupted.
    Interrupt,
}

/// What a loop does next.
#[derive(Clone, Debug, PartialEq, Eq)]
pub enum Step {
    /// Opens the next turn, where the window has one left.
    Turn,
    /// Compiles the context.
    Compile,
    /// Asks the model.
    Generate,
    /// Takes the controls once more before a program runs.
    Confirm { source: String },
    /// Runs a program.
    Execute { source: String },
    /// Closes the window and opens a fresh one.
    Rollover,
    Done(TaskOutcome),
    Failed(AgentError),
}

/// What was run last, and how often with the same result.
#[derive(Debug, PartialEq, Eq)]
pub struct RepeatState {
    pub normalized_source: Option<String>,
    pub fingerprint: Option<String>,
    pub identical_executions: usize,
}

/// What was run last, as plain values.
#[verifier::ext_equal]
pub struct Repeat {
    pub source: Option<Seq<char>>,
    pub fingerprint: Option<Seq<char>>,
    pub count: nat,
}

impl View for RepeatState {
    type V = Repeat;

    open spec fn view(&self) -> Repeat {
        Repeat {
            source: opt_view(self.normalized_source),
            fingerprint: opt_view(self.fingerprint),
            count: self.identical_executions as nat,
        }
    }
}

/// Nothing was run yet.
pub open spec fn no_repeat() -> Repeat {
    Repeat { source: None, fingerprint: None, count: 0 }
}

/// What was run last, after a run.
pub open spec fn repeated(r: Repeat, source: Seq<char>, fingerprint: Seq<char>) -> Repeat {
    Repeat {
        source: Some(source),
        fingerprint: Some(fingerprint),
        count: if r.source == Some(source) && r.fingerprint == Some(fingerprint) {
            r.count + 1
        } else {
            1
        },
    }
}

/// Whether a program is not run again: it ran twice with the same result.
pub open spec fn blocked(r: Repeat, source: Seq<char>) -> bool {
    r.count >= 2 && r.source == Some(source)
}

/// A program that ran twice in a row with the same result is not run a third
/// time; after a run of another one, or one with another result, it may be.
pub proof fn law_third_identical_action_is_not_run(
    r: Repeat,
    source: Seq<char>,
    fingerprint: Seq<char>,
    other: Seq<char>,
)
    ensures
        blocked(repeated(repeated(r, source, fingerprint), source, fingerprint), source),
        other != source ==> !blocked(repeated(r, other, fingerprint), source),
        r.fingerprint != Some(fingerprint) ==> !blocked(
            repeated(r, source, fingerprint),
            source,
        ),
        !blocked(no_repeat(), source),
{
}

impl RepeatState {
    /// Nothing was run yet.
    pub fn fresh() -> (r: RepeatState)
        ensures
            r@ == no_repeat(),
    {
        RepeatState { normalized_source: None, fingerprint: None, identical_executions: 0 }
    }
}

/// A program with every run of white space made one space.
pub open spec fn normalized(source: Seq<char>) -> Seq<char> {
    joined(words(source), " "@)
}

/// A program with every run of white space made one space.
pub fn normalize_source(source: &str) -> (r: String)
    ensures
        r@ == normalized(source@),
{
    let parts = words_text(source);
    join(&parts, " ")
}

/// An outcome as the journal shows it.
pub open spec fn outcome_shown(outcome: Outcome) -> Seq<char> {
    match outcome {
        Outcome::Completed => "Completed"@,
        Outcome::BudgetExceeded(what) => "BudgetExceeded("@ + debug_shown(what) + ")"@,
        Outcome::Interrupted => "Interrupted"@,
        Outcome::Failed(message) => "Failed("@ + debug_shown(message) + ")"@,
    }
}

/// An outcome as the journal shows it.
pub fn outcome_text(outcome: &PtcOutcome) -> (r: String)
    ensures
        r@ == outcome_shown(outcome@),
{
    match outcome {
        PtcOutcome::Completed => text("Completed"),
        PtcOutcome::BudgetExceeded(what) => {
            let mut s = text("BudgetExceeded(");
            s.append(debug_text(what).as_str());
            s.append(")");
            s
        },
        PtcOutcome::Interrupted => text("Interrupted"),
        PtcOutcome::Failed(message) => {
            let mut s = text("Failed(");
            s.append(debug_text(message.as_str()).as_str());
            s.append(")");
            s
        },
    }
}

/// The hash of a text.
pub uninterp spec fn text_hash(s: Seq<char>) -> u64;

/// `std::hash::DefaultHasher::new`, fed with a string by `std::hash::Hash::hash`
/// and read by `finish`. Claimed: the result depends on the string alone, since
/// hashers made by `new` are all the same. Which hash it is, and so which number
/// comes out, is left to the release of std, and nothing is claimed of it.
#[verifier::external_body]
fn hash_text(s: &str) -> (r: u64)
    ensures
        r == text_hash(s@),
{
    let mut hasher = std::hash::DefaultHasher::new();
    std::hash::Hash::hash(s, &mut hasher);
    std::hash::Hasher::finish(&hasher)
}

/// The fingerprint of a text.
pub open spec fn fingerprint(s: Seq<char>) -> Seq<char> {
    hex(text_hash(s) as nat, 16)
}

/// The fingerprint of a text.
pub fn fingerprint_text(s: &str) -> (r: String)
    ensures
        r@ == fingerprint(s@),
{
    hex16(hash_text(s))
}

/// The first characters of a value in compact form.
pub fn compact_value(value: &Json) -> (r: String)
    ensures
        r@ == head(value.compact(), 4096),
{
    take_chars(value.compact_text().as_str(), 4096)
}

/// What a run is told apart by: its program, its outcome and its value.
pub open spec fn action_of(source: Seq<char>, outcome: Outcome, value: Seq<char>) -> Seq<char> {
    fingerprint(source + "\n"@ + outcome_shown(outcome) + "\n"@ + head(value, 4096))
}

/// What a run is told apart by.
pub fn action_fingerprint(source: &str, outcome: &PtcOutcome, value: &Json) -> (r: String)
    ensures
        r@ == action_of(source@, outcome@, value.compact()),
{
    let mut s = text(source);
    s.append("\n");
    s.append(outcome_text(outcome).as_str());
    s.append("\n");
    s.append(compact_value(value).as_str());
    fingerprint_text(s.as_str())
}

/// What kind of answer the model gave.
pub fn output_kind(output: &ModelOutput) -> (r: &'static str)
    ensures
        r@ == match *output {
            ModelOutput::Text(_) => "text"@,
            ModelOutput::Program { .. } => "program"@,
            ModelOutput::FunctionCall { .. } => "function_call"@,
        },
{
    match output {
        ModelOutput::Text(_) => "text",
        ModelOutput::Program { .. } => "program",
        ModelOutput::FunctionCall { .. } => "function_call",
    }
}

/// The texts that a user steered with.
pub open spec fn steers(controls: Seq<AgentControl>) -> Seq<String>
    decreases controls.len(),
{
    if controls.len() == 0 {
        Seq::empty()
    } else {
        match controls.last() {
            AgentControl::Steer(content) => steers(controls.drop_last()).push(content),
            AgentControl::Interrupt => steers(controls.drop_last()),
        }
    }
}

/// Whether a user interrupted.
pub open spec fn interrupts(controls: Seq<AgentControl>) -> bool {
    controls.contains(AgentControl::Interrupt)
}

/// Takes the controls apart: the texts, and whether there was an interrupt.
pub fn drain_controls(controls: Vec<AgentControl>) -> (r: (Vec<String>, bool))
    ensures
        r.0@ == steers(controls@),
        r.1 == interrupts(controls@),
{
    let ghost all = controls@;
    let mut steering: Vec<String> = Vec::new();
    let mut interrupted = false;
    let mut i: usize = 0;
    proof {
        assert(all.take(0) =~= Seq::<AgentControl>::empty());
    }
    while i < controls.len()
        invariant
            i <= controls.len(),
            controls@ == all,
            steering@ == steers(all.take(i as int)),
            interrupted == interrupts(all.take(i as int)),
        decreases controls.len() - i,
    {
        proof {
            assert(all.take(i + 1).drop_last() =~= all.take(i as int));
            assert(all.take(i + 1).last() == all[i as int]);
            assert(all.take(i + 1) =~= all.take(i as int).push(all[i as int]));
            lemma_interrupts_push(all.take(i as int), all[i as int]);
        }
        match &controls[i] {
            AgentControl::Steer(content) => {
                steering.push(content.clone());
            },
            AgentControl::Interrupt => {
                interrupted = true;
            },
        }
        i = i + 1;
    }
    proof {
        assert(all.take(i as int) =~= all);
    }
    (steering, interrupted)
}

proof fn lemma_interrupts_push(controls: Seq<AgentControl>, c: AgentControl)
    ensures
        interrupts(controls.push(c)) == (interrupts(controls) || c == AgentControl::Interrupt),
{
    let longer = controls.push(c);
    if interrupts(controls) {
        let k = choose|k: int| 0 <= k < controls.len() && controls[k] == AgentControl::Interrupt;
        assert(longer[k] == AgentControl::Interrupt);
    }
    if c == AgentControl::Interrupt {
        assert(longer[controls.len() as int] == AgentControl::Interrupt);
    }
    if interrupts(longer) {
        let k = choose|k: int| 0 <= k < longer.len() && longer[k] == AgentControl::Interrupt;
        if k < controls.len() {
            assert(controls[k] == AgentControl::Interrupt);
        }
    }
}

/// What is told of steering that was received.
pub open spec fn queued_effects(steering: Seq<String>) -> Seq<Effect> {
    steering.map_values(|content: String| Effect::Tell(AgentEvent::SteeringQueued { content }))
}

/// What is journaled and told of one text that a user steered with.
pub open spec fn steering_effects(task_id: TaskId, content: String) -> Seq<Effect> {
    seq![
        Effect::Journal(SessionEvent::SteeringQueued { task_id, content }),
        Effect::Journal(SessionEvent::SteeringApplied { task_id, content }),
        Effect::Tell(AgentEvent::SteeringApplied { content }),
    ]
}

/// What is journaled and told of steering, text by text.
pub open spec fn applied_effects(task_id: TaskId, steering: Seq<String>) -> Seq<Effect>
    decreases steering.len(),
{
    if steering.len() == 0 {
        Seq::empty()
    } else {
        applied_effects(task_id, steering.drop_last()) + steering_effects(
            task_id,
            steering.last(),
        )
    }
}

/// What is journaled and told of steering that waited in the journal.
pub open spec fn durable_effects(task_id: TaskId, pending: Seq<String>) -> Seq<Effect>
    decreases pending.len(),
{
    if pending.len() == 0 {
        Seq::empty()
    } else {
        durable_effects(task_id, pending.drop_last()) + seq![
            Effect::Journal(SessionEvent::SteeringApplied { task_id, content: pending.last() }),
            Effect::Tell(AgentEvent::SteeringApplied { content: pending.last() }),
        ]
    }
}

/// What is journaled and told of messages of a parent.
pub open spec fn inbox_effects(agent: AgentId, task_id: TaskId, inbox: Seq<String>) -> Seq<Effect>
    decreases inbox.len(),
{
    if inbox.len() == 0 {
        Seq::empty()
    } else {
        inbox_effects(agent, task_id, inbox.drop_last()) + seq![
            Effect::Journal(
                SessionEvent::AgentMessageApplied { agent, task_id, content: inbox.last() },
            ),
            Effect::Tell(AgentEvent::SteeringApplied { content: inbox.last() }),
        ]
    }
}

/// Tells that steering was received.
pub fn tell_queued(steering: &Vec<String>, out: &mut Vec<Effect>)
    ensures
        final(out)@ == old(out)@ + queued_effects(steering@),
{
    let ghost was = out@;
    let ghost all = steering@;
    let mut i: usize = 0;
    proof {
        assert(out@ =~= was + queued_effects(all.take(0)));
    }
    while i < steering.len()
        invariant
            i <= steering.len(),
            all == steering@,
            out@ == was + queued_effects(all.take(i as int)),
        decreases steering.len() - i,
    {
        out.push(Effect::Tell(AgentEvent::SteeringQueued { content: steering[i].clone() }));
        proof {
            assert(queued_effects(all.take(i + 1)) =~= queued_effects(all.take(i as int)).push(
                Effect::Tell(AgentEvent::SteeringQueued { content: all[i as int] }),
            ));
            assert(out@ =~= was + queued_effects(all.take(i + 1)));
        }
        i = i + 1;
    }
    proof {
        assert(all.take(i as int) =~= all);
    }
}

/// Journals and tells steering that is taken up.
pub fn apply_steering(task_id: TaskId, steering: &Vec<String>, out: &mut Vec<Effect>)
    ensures
        final(out)@ == old(out)@ + applied_effects(task_id, steering@),
{
    let ghost was = out@;
    let ghost all = steering@;
    let mut i: usize = 0;
    proof {
        assert(all.take(0) =~= Seq::<String>::empty());
        assert(out@ =~= was + applied_effects(task_id, all.take(0)));
    }
    while i < steering.len()
        invariant
            i <= steering.len(),
            all == steering@,
            out@ == was + applied_effects(task_id, all.take(i as int)),
        decreases steering.len() - i,
    {
        out.push(
            Effect::Journal(
                SessionEvent::SteeringQueued { task_id, content: steering[i].clone() },
            ),
        );
        out.push(
            Effect::Journal(
                SessionEvent::SteeringApplied { task_id, content: steering[i].clone() },
            ),
        );
        out.push(Effect::Tell(AgentEvent::SteeringApplied { content: steering[i].clone() }));
        proof {
            assert(all.take(i + 1).drop_last() =~= all.take(i as int));
            assert(all.take(i + 1).last() == all[i as int]);
            assert(out@ =~= was + applied_effects(task_id, all.take(i + 1)));
        }
        i = i + 1;
    }
    proof {
        assert(all.take(i as int) =~= all);
    }
}

/// Journals and tells steering that waited in the journal.
pub fn apply_pending(task_id: TaskId, pending: &Vec<String>, out: &mut Vec<Effect>)
    ensures
        final(out)@ == old(out)@ + durable_effects(task_id, pending@),
{
    let ghost was = out@;
    let ghost all = pending@;
    let mut i: usize = 0;
    proof {
        assert(all.take(0) =~= Seq::<String>::empty());
        assert(out@ =~= was + durable_effects(task_id, all.take(0)));
    }
    while i < pending.len()
        invariant
            i <= pending.len(),
            all == pending@,
            out@ == was + durable_effects(task_id, all.take(i as int)),
        decreases pending.len() - i,
    {
        out.push(
            Effect::Journal(
                SessionEvent::SteeringApplied { task_id, content: pending[i].clone() },
            ),
        );
        out.push(Effect::Tell(AgentEvent::SteeringApplied { content: pending[i].clone() }));
        proof {
            assert(all.take(i + 1).drop_last() =~= all.take(i as int));
            assert(all.take(i + 1).last() == all[i as int]);
            assert(out@ =~= was + durable_effects(task_id, all.take(i + 1)));
        }
        i = i + 1;
    }
    proof {
        assert(all.take(i as int) =~= all);
    }
}

/// Journals and tells messages of a parent.
pub fn apply_inbox(agent: AgentId, task_id: TaskId, inbox: &Vec<String>, out: &mut Vec<Effect>)
    ensures
        final(out)@ == old(out)@ + inbox_effects(agent, task_id, inbox@),
{
    let ghost was = out@;
    let ghost all = inbox@;
    let mut i: usize = 0;
    proof {
        assert(all.take(0) =~= Seq::<String>::empty());
        assert(out@ =~= was + inbox_effects(agent, task_id, all.take(0)));
    }
    while i < inbox.len()
        invariant
            i <= inbox.len(),
            all == inbox@,
            out@ == was + inbox_effects(agent, task_id, all.take(i as int)),
        decreases inbox.len() - i,
    {
        out.push(
            Effect::Journal(
                SessionEvent::AgentMessageApplied { agent, task_id, content: inbox[i].clone() },
            ),
        );
        out.push(Effect::Tell(AgentEvent::SteeringApplied { content: inbox[i].clone() }));
        proof {
            assert(all.take(i + 1).drop_last() =~= all.take(i as int));
            assert(all.take(i + 1).last() == all[i as int]);
            assert(out@ =~= was + inbox_effects(agent, task_id, all.take(i + 1)));
        }
        i = i + 1;
    }
    proof {
        assert(all.take(i as int) =~= all);
    }
}

/// What is told of one event of a run.
pub open spec fn told_of(event: PtcEvent) -> Option<AgentEvent> {
    match event {
        PtcEvent::HostCallStarted { call_id, name, .. } => Some(
            AgentEvent::PtcHostCallStarted { call_id, name },
        ),
        PtcEvent::HostCallCompleted { call_id, name, ok, duration_ms, .. } => Some(
            AgentEvent::PtcHostCallCompleted { call_id, name, ok, duration_ms },
        ),
        PtcEvent::EvidenceRecorded { evidence } => Some(
            AgentEvent::EvidenceRecorded { kind: evidence.kind, ok: evidence.ok },
        ),
        PtcEvent::WorkspaceRevisionChanged { .. } => None,
    }
}

/// What is told of the events of a run.
pub open spec fn told(events: Seq<PtcEvent>) -> Seq<AgentEvent>
    decreases events.len(),
{
    if events.len() == 0 {
        Seq::empty()
    } else {
        match told_of(events.last()) {
            Some(e) => told(events.drop_last()).push(e),
            None => told(events.drop_last()),
        }
    }
}

/// What is told of the events of a run.
pub fn translate_ptc_events(events: &Vec<PtcEvent>) -> (r: Vec<AgentEvent>)
    ensures
        r@ == told(events@),
{
    let ghost all = events@;
    let mut out: Vec<AgentEvent> = Vec::new();
    let mut i: usize = 0;
    proof {
        assert(all.take(0) =~= Seq::<PtcEvent>::empty());
    }
    while i < events.len()
        invariant
            i <= events.len(),
            all == events@,
            out@ == told(all.take(i as int)),
        decreases events.len() - i,
    {
        proof {
            assert(all.take(i + 1).drop_last() =~= all.take(i as int));
            assert(all.take(i + 1).last() == all[i as int]);
        }
        match &events[i] {
            PtcEvent::HostCallStarted { call_id, name, .. } => out.push(
                AgentEvent::PtcHostCallStarted { call_id: *call_id, name: name.clone() },
            ),
            PtcEvent::HostCallCompleted { call_id, name, ok, duration_ms, .. } => out.push(
                AgentEvent::PtcHostCallCompleted {
                    call_id: *call_id,
                    name: name.clone(),
                    ok: *ok,
                    duration_ms: *duration_ms,
                },
            ),
            PtcEvent::EvidenceRecorded { evidence } => out.push(
                AgentEvent::EvidenceRecorded { kind: evidence.kind.clone(), ok: evidence.ok },
            ),
            PtcEvent::WorkspaceRevisionChanged { .. } => {},
        }
        i = i + 1;
    }
    proof {
        assert(all.take(i as int) =~= all);
    }
    out
}

/// The summary of the newest completion of a task in the journal.
pub open spec fn newest_completion(events: Seq<EventRecord>, task: TaskId) -> Option<String>
    decreases events.len(),
{
    if events.len() == 0 {
        None
    } else {
        match events.last().event {
            SessionEvent::TaskCompleted { task_id, summary } => if task_id == task {
                Some(summary)
            } else {
                newest_completion(events.drop_last(), task)
            },
            _ => newest_completion(events.drop_last(), task),
        }
    }
}

/// The summary of the newest accepted finish of a task, where there is one.
pub fn accepted_finish(events: &Vec<EventRecord>, task: TaskId) -> (r: Option<String>)
    ensures
        r == newest_completion(events@, task),
{
    let ghost all = events@;
    let mut i: usize = events.len();
    proof {
        assert(all.take(i as int) =~= all);
    }
    while i > 0
        invariant
            i <= all.len(),
            all == events@,
            newest_completion(all.take(i as int), task) == newest_completion(all, task),
        decreases i,
    {
        proof {
            assert(all.take(i as int).drop_last() =~= all.take(i - 1));
            assert(all.take(i as int).last() == all[i - 1]);
        }
        match &events[i - 1].event {
            SessionEvent::TaskCompleted { task_id, summary } => {
                if task_id.0 == task.0 {
                    return Some(summary.clone());
                }
            },
            _ => {},
        }
        i = i - 1;
    }
    None
}

/// Synchronous delegation, for programs that wait for one worker.
pub fn delegate_compat<H: DelegationHost>(
    line: &mut HostLine<'_, H>,
    parent: &PtcExecution,
    revision: &RevisionId,
    options: AgentSpawnOptions,
) -> (r: Result<DelegateResult, String>)
    ensures
        final(line).host() == old(line).host(),
        exists|calls: Seq<DelegationCall>|
            #![trigger old(line).history() + calls]
            final(line).history() == old(line).history() + calls && delegated(
                old(line).host(),
                *parent,
                *revision,
                options,
                calls,
                r,
            ),
{
    delegate_sync(line, parent, revision, options)
}

/// Synchronous delegation, for programs that wait for several workers.
pub fn delegate_batch_compat<H: DelegationHost>(
    line: &mut HostLine<'_, H>,
    parent: &PtcExecution,
    revision: &RevisionId,
    options: Vec<AgentSpawnOptions>,
) -> (r: Vec<DelegateResult>)
    ensures
        final(line).host() == old(line).host(),
        exists|calls: Seq<DelegationCall>|
            #![trigger old(line).history() + calls]
            final(line).history() == old(line).history() + calls && batch_delegated(
                old(line).host(),
                *parent,
                *revision,
                options@,
                calls,
                r@,
            ),
{
    delegate_batch_sync(line, parent, revision, options)
}

/// The reports of the tasks that a session was found to hold, or why none was
/// found.
pub fn inspect(found: Result<Vec<TaskView>, SessionError>) -> (r: Result<
    Vec<TaskReport>,
    AgentError,
>)
    ensures
        match (found, r) {
            (Ok(tasks), Ok(reports)) => reports@.len() == tasks@.len() && forall|i: int|
                0 <= i < reports@.len() ==> reports_task(#[trigger] reports@[i], tasks@[i]),
            (Err(error), Err(e)) => e == AgentError::Session(error),
            _ => false,
        },
{
    match found {
        Ok(tasks) => Ok(task_reports(&tasks)),
        Err(error) => Err(AgentError::Session(error)),
    }
}

} // verus!
