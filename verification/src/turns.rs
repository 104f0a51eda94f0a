//! The turns of a loop, one decision at a time: what was observed goes in, what
//! is journaled and told and what comes next goes out.
use vstd::prelude::*;
use crate::agent::{action_fingerprint, action_of, applied_effects, blocked, drain_controls, durable_effects, fingerprint_text, inbox_effects, interrupts, no_repeat, normalize_source, normalized, outcome_shown, outcome_text, output_kind, queued_effects, repeated, steers, AgentControl, AgentError, AgentEvent, Effect, Repeat, RepeatState, Step, TaskOutcome, apply_inbox, apply_pending, apply_steering, tell_queued};
use crate::context::{estimate_tokens, tokens_of, ContextError};
use crate::goal::TaskStatus;
use crate::identity::{AgentId, ExecutionId, RevisionId, TaskId};
use crate::json::Json;
use crate::model::{lower, lowered, GenerationStop, GenerationStopReason, ModelError, ModelOutput};
use crate::process::ProcessSnapshot;
use crate::ptc::prelude::{description_of, identity_of, Prelude};
use crate::ptc::runtime::{PtcExecution, PtcOutcome};
use crate::runtime::speaks_of;
use crate::session::{build_checkpoint, is_checkpoint_of, AgentRecord, SessionError, SessionEvent, TaskView};
use crate::text::{decimal, decimal_text, opt_view, same, text};
use vstd::string::StringExecFns;

verus! {

/// A loop over the turns of one task.
#[derive(Debug, PartialEq, Eq)]
pub struct TaskRun {
    pub task_id: TaskId,
    pub agent: AgentId,
    /// Windows the task may use before it fails as non-converging.
    pub max_windows: u32,
    /// Turns of one window. Crossing it rolls over; it never ends the task.
    pub max_turns: usize,
    /// Turns opened in the current window.
    pub turn: usize,
    pub repeat: RepeatState,
    pub cancelled: bool,
}

/// Whether two loops differ in nothing but what was run last and whether they
/// were cancelled.
pub open spec fn same_place(a: TaskRun, b: TaskRun) -> bool {
    &&& a.task_id == b.task_id
    &&& a.agent == b.agent
    &&& a.max_windows == b.max_windows
    &&& a.max_turns == b.max_turns
    &&& a.turn == b.turn
}

/// What an interrupted loop journals, and what it ends in.
pub open spec fn interrupted_effects() -> Seq<Effect> {
    seq![Effect::Interrupt]
}

/// What is journaled and told of a repeated action.
pub open spec fn repeat_effects(task_id: TaskId, fingerprint: String) -> Seq<Effect> {
    seq![
        Effect::Journal(SessionEvent::RepeatedActionDetected { task_id, fingerprint }),
        Effect::Tell(AgentEvent::RepeatedActionDetected { fingerprint }),
    ]
}

/// Whether effects report the repetition of an action with this fingerprint.
pub open spec fn reports_repeat(effects: Seq<Effect>, task_id: TaskId, shown: Seq<char>) -> bool {
    exists|f: String| #[trigger] repeat_effects(task_id, f) == effects && f@ == shown
}

/// What the model's answer comes to, once it has been stopped or not.
pub open spec fn generation(result: Result<ModelOutput, ModelError>, steered: bool) -> Result<
    Option<ModelOutput>,
    AgentError,
> {
    match result {
        Ok(output) => if steered {
            Ok(None)
        } else {
            Ok(Some(output))
        },
        Err(ModelError::Stopped(GenerationStopReason::Superseded)) => if steered {
            Ok(None)
        } else {
            Err(AgentError::Model(ModelError::Stopped(GenerationStopReason::Superseded)))
        },
        Err(ModelError::Stopped(GenerationStopReason::UserInterrupt)) => Err(AgentError::Cancelled),
        Err(error) => Err(AgentError::Model(error)),
    }
}

/// Steering that arrives while the model answers: it supersedes the request; an
/// interrupt stops it.
pub fn take_control(control: AgentControl, steering: &mut Vec<String>, stop: &mut GenerationStop) -> (r:
    Option<AgentEvent>)
    ensures
        match control {
            AgentControl::Steer(content) => final(steering)@ == old(steering)@.push(content)
                && final(stop).superseded && final(stop).user_interrupted == old(
                stop,
            ).user_interrupted && r == Some(AgentEvent::SteeringQueued { content }),
            AgentControl::Interrupt => final(steering)@ == old(steering)@
                && final(stop).user_interrupted && final(stop).superseded == old(stop).superseded
                && r is None,
        },
{
    match control {
        AgentControl::Steer(content) => {
            let event = AgentEvent::SteeringQueued { content: content.clone() };
            steering.push(content);
            stop.stop(GenerationStopReason::Superseded);
            Some(event)
        },
        AgentControl::Interrupt => {
            stop.stop(GenerationStopReason::UserInterrupt);
            None
        },
    }
}

/// What a run of a program leads to: an interrupt ends the loop, an accepted
/// finish completes the task, and anything else is another turn.
pub open spec fn after_run(interrupted: bool, finish: Option<String>) -> Step {
    if interrupted {
        Step::Failed(AgentError::Cancelled)
    } else {
        match finish {
            Some(summary) => Step::Done(TaskOutcome::Completed(summary)),
            None => Step::Turn,
        }
    }
}

/// What an answer of the model leads to, once nothing has superseded it: text
/// parks the task; a program that is not a repetition is run.
pub open spec fn after_answer(output: ModelOutput, repeat: Repeat) -> Option<Step> {
    match output {
        ModelOutput::Text(content) => Some(Step::Done(TaskOutcome::AwaitingUser(content))),
        _ => if blocked(repeat, normalized(lowered(output)->0)) {
            Some(Step::Turn)
        } else {
            None
        },
    }
}

/// Text never completes a task: only a run with an accepted finish does.
pub proof fn law_only_an_accepted_finish_completes(
    output: ModelOutput,
    repeat: Repeat,
    interrupted: bool,
    finish: Option<String>,
)
    ensures
        after_answer(output, repeat) is Some ==> !(after_answer(output, repeat)->0 matches
            Step::Done(TaskOutcome::Completed(_))),
        (after_run(interrupted, finish) matches Step::Done(outcome) && outcome is Completed) <==> (
        finish is Some && !interrupted),
{
}

impl TaskRun {
    /// A loop that has opened no window yet.
    pub fn new(task_id: TaskId, agent: AgentId, max_windows: u32, max_turns: usize) -> (r: TaskRun)
        ensures
            r.task_id == task_id,
            r.agent == agent,
            r.max_windows == max_windows,
            r.max_turns == max_turns,
            r.turn == 0,
            r.repeat@ == no_repeat(),
            !r.cancelled,
    {
        TaskRun {
            task_id,
            agent,
            max_windows,
            max_turns,
            turn: 0,
            repeat: RepeatState::fresh(),
            cancelled: false,
        }
    }

    /// Opens a window: it starts with all its turns, and with nothing run.
    pub fn open_window(&mut self, window: u32) -> (r: Vec<Effect>)
        ensures
            final(self).task_id == old(self).task_id,
            final(self).agent == old(self).agent,
            final(self).max_windows == old(self).max_windows,
            final(self).max_turns == old(self).max_turns,
            final(self).turn == 0,
            final(self).repeat@ == no_repeat(),
            final(self).cancelled == old(self).cancelled,
            r@ == seq![
                Effect::Journal(
                    SessionEvent::ContextWindowStarted {
                        task_id: old(self).task_id,
                        agent: old(self).agent,
                        window,
                    },
                ),
                Effect::Tell(AgentEvent::ContextWindowStarted { window }),
            ],
    {
        self.turn = 0;
        self.repeat = RepeatState::fresh();
        let mut out: Vec<Effect> = Vec::new();
        out.push(
            Effect::Journal(
                SessionEvent::ContextWindowStarted {
                    task_id: self.task_id,
                    agent: self.agent,
                    window,
                },
            ),
        );
        out.push(Effect::Tell(AgentEvent::ContextWindowStarted { window }));
        out
    }

    /// Whether a task that has reached a window goes on: at the ceiling it is
    /// failed, because it does not converge.
    pub fn check_window(&self, window: u32) -> (r: Option<(Vec<Effect>, AgentError)>)
        ensures
            match r {
                None => window < self.max_windows,
                Some((effects, error)) => {
                    &&& window >= self.max_windows
                    &&& error == AgentError::WindowLimit(self.max_windows)
                    &&& effects@.len() == 1
                    &&& effects@[0] matches Effect::SetStatus { status, reason }
                    &&& status is Failed
                    &&& opt_view(reason) == Some("context window limit reached"@)
                },
            },
    {
        if window < self.max_windows {
            return None;
        }
        let mut out: Vec<Effect> = Vec::new();
        out.push(
            Effect::SetStatus {
                status: TaskStatus::Failed,
                reason: Some(text("context window limit reached")),
            },
        );
        Some((out, AgentError::WindowLimit(self.max_windows)))
    }

    /// Whether the window has another turn; it has at least one. The turn is
    /// taken.
    pub fn next_turn(&mut self) -> (r: bool)
        ensures
            final(self).task_id == old(self).task_id,
            final(self).agent == old(self).agent,
            final(self).max_windows == old(self).max_windows,
            final(self).max_turns == old(self).max_turns,
            final(self).repeat@ == old(self).repeat@,
            final(self).cancelled == old(self).cancelled,
            r == (old(self).turn < (if old(self).max_turns == 0 {
                1
            } else {
                old(self).max_turns as int
            })),
            final(self).turn == if r {
                old(self).turn + 1
            } else {
                old(self).turn as int
            },
    {
        let turns: usize = if self.max_turns == 0 {
            1
        } else {
            self.max_turns
        };
        if self.turn < turns {
            self.turn = self.turn + 1;
            true
        } else {
            false
        }
    }

    /// Opens a turn: takes up steering, from the controls and from the journal,
    /// and messages of the parent; then a cancellation ends the loop.
    pub fn open_turn(
        &mut self,
        controls: Vec<AgentControl>,
        pending: &Vec<String>,
        inbox: &Vec<String>,
        cancel_requested: bool,
        cancelled: bool,
    ) -> (r: (Vec<Effect>, Step))
        ensures
            same_place(*old(self), *final(self)),
            final(self).cancelled == (old(self).cancelled || cancelled || cancel_requested
                || interrupts(controls@)),
            final(self).repeat@ == if steers(controls@).len() > 0 || pending@.len() > 0 || (old(
                self,
            ).agent.0 != 0 && inbox@.len() > 0) {
                no_repeat()
            } else {
                old(self).repeat@
            },
            r.0@ == queued_effects(steers(controls@)) + applied_effects(
                old(self).task_id,
                steers(controls@),
            ) + durable_effects(old(self).task_id, pending@) + (if old(self).agent.0 != 0 {
                inbox_effects(old(self).agent, old(self).task_id, inbox@)
            } else {
                Seq::empty()
            }) + (if final(self).cancelled {
                interrupted_effects()
            } else {
                Seq::empty()
            }),
            r.1 == if final(self).cancelled {
                Step::Failed(AgentError::Cancelled)
            } else {
                Step::Compile
            },
    {
        let (steering, interrupted) = drain_controls(controls);
        let mut out: Vec<Effect> = Vec::new();
        tell_queued(&steering, &mut out);
        apply_steering(self.task_id, &steering, &mut out);
        if steering.len() > 0 {
            self.repeat = RepeatState::fresh();
        }
        apply_pending(self.task_id, pending, &mut out);
        if pending.len() > 0 {
            self.repeat = RepeatState::fresh();
        }
        if !self.agent.is_root() {
            apply_inbox(self.agent, self.task_id, inbox, &mut out);
            if inbox.len() > 0 {
                self.repeat = RepeatState::fresh();
            }
        }
        self.cancelled = self.cancelled || cancelled || cancel_requested || interrupted;
        let ghost expected = queued_effects(steers(controls@)) + applied_effects(
            old(self).task_id,
            steers(controls@),
        ) + durable_effects(old(self).task_id, pending@) + (if old(self).agent.0 != 0 {
            inbox_effects(old(self).agent, old(self).task_id, inbox@)
        } else {
            Seq::empty()
        });
        proof {
            assert(out@ =~= expected);
        }
        if self.cancelled {
            out.push(Effect::Interrupt);
            proof {
                assert(out@ =~= expected + interrupted_effects());
            }
            (out, Step::Failed(AgentError::Cancelled))
        } else {
            proof {
                assert(out@ =~= expected + Seq::<Effect>::empty());
            }
            (out, Step::Compile)
        }
    }

    /// Goes on with a compiled context, or rolls over where it has grown past
    /// the soft limit.
    pub fn compiled(&self, needs_rollover: Result<bool, ContextError>) -> (r: (Vec<Effect>, Step))
        ensures
            match needs_rollover {
                Err(error) => r.0@.len() == 0 && r.1 == Step::Failed(AgentError::Context(error)),
                Ok(true) => r.0@.len() == 0 && r.1 == Step::Rollover,
                Ok(false) => r.0@ == seq![
                    Effect::Journal(SessionEvent::ModelStarted { task_id: self.task_id }),
                ] && r.1 == Step::Generate,
            },
    {
        let mut out: Vec<Effect> = Vec::new();
        match needs_rollover {
            Err(error) => (out, Step::Failed(AgentError::Context(error))),
            Ok(full) => {
                if full {
                    (out, Step::Rollover)
                } else {
                    out.push(
                        Effect::Journal(SessionEvent::ModelStarted { task_id: self.task_id }),
                    );
                    (out, Step::Generate)
                }
            },
        }
    }

    /// Goes on with what the model answered. Steering that arrived meanwhile
    /// supersedes the answer: nothing of it runs.
    pub fn generated(
        &mut self,
        result: Result<ModelOutput, ModelError>,
        steering: Vec<String>,
        cancelled: bool,
    ) -> (r: (Vec<Effect>, Step))
        ensures
            same_place(*old(self), *final(self)),
            match generation(result, steering@.len() > 0) {
                Err(error) => {
                    &&& r.0@.len() == 0
                    &&& r.1 == Step::Failed(error)
                    &&& final(self).repeat@ == old(self).repeat@
                    &&& final(self).cancelled == old(self).cancelled
                },
                Ok(None) => {
                    &&& r.0@ == seq![
                        Effect::Journal(SessionEvent::ModelSuperseded { task_id: old(self).task_id }),
                    ] + applied_effects(old(self).task_id, steering@)
                    &&& r.1 == Step::Turn
                    &&& final(self).repeat@ == no_repeat()
                    &&& final(self).cancelled == old(self).cancelled
                },
                Ok(Some(output)) => {
                    &&& final(self).repeat@ == old(self).repeat@
                    &&& final(self).cancelled == (old(self).cancelled || cancelled)
                    &&& r.0@.len() > 0
                    &&& r.0@[0] matches Effect::Journal(
                        SessionEvent::ModelCompleted { task_id, output_kind },
                    )
                    &&& task_id == old(self).task_id
                    &&& output_kind@ == kind_of_output(output)
                    &&& old(self).answer_taken(output, final(self).cancelled, r.0@.skip(1), r.1)
                },
            },
    {
        let steered = steering.len() > 0;
        let mut out: Vec<Effect> = Vec::new();
        let output = match result {
            Ok(output) => output,
            Err(error) => {
                match error {
                    ModelError::Stopped(GenerationStopReason::Superseded) => {
                        if !steered {
                            return (out, Step::Failed(AgentError::Model(error)));
                        }
                        ModelOutput::Text(text(""))
                    },
                    ModelError::Stopped(GenerationStopReason::UserInterrupt) => {
                        return (out, Step::Failed(AgentError::Cancelled));
                    },
                    _ => {
                        return (out, Step::Failed(AgentError::Model(error)));
                    },
                }
            },
        };
        if steered {
            out.push(Effect::Journal(SessionEvent::ModelSuperseded { task_id: self.task_id }));
            let ghost first = out@;
            apply_steering(self.task_id, &steering, &mut out);
            self.repeat = RepeatState::fresh();
            proof {
                assert(first =~= seq![
                    Effect::Journal(SessionEvent::ModelSuperseded { task_id: old(self).task_id }),
                ]);
            }
            return (out, Step::Turn);
        }
        out.push(
            Effect::Journal(
                SessionEvent::ModelCompleted {
                    task_id: self.task_id,
                    output_kind: text(output_kind(&output)),
                },
            ),
        );
        self.cancelled = self.cancelled || cancelled;
        let ghost first = out@;
        if self.cancelled {
            out.push(Effect::Interrupt);
            proof {
                assert(out@.skip(1) =~= interrupted_effects());
            }
            return (out, Step::Failed(AgentError::Cancelled));
        }
        match output {
            ModelOutput::Text(content) => {
                out.push(
                    Effect::Journal(
                        SessionEvent::AssistantMessage {
                            task_id: self.task_id,
                            content: content.clone(),
                        },
                    ),
                );
                out.push(
                    Effect::Tell(AgentEvent::AssistantMessage { content: content.clone() }),
                );
                if self.agent.is_root() {
                    out.push(Effect::SetStatus { status: TaskStatus::WaitingUser, reason: None });
                }
                proof {
                    assert(out@.skip(1) =~= text_effects(*self, content));
                }
                (out, Step::Done(TaskOutcome::AwaitingUser(content)))
            },
            executable => {
                match lower(&executable) {
                    None => (out, Step::Turn),
                    Some(source) => {
                        let plain = normalize_source(source.as_str());
                        let known = match &self.repeat.normalized_source {
                            Some(last) => same(last.as_str(), plain.as_str()),
                            None => false,
                        };
                        if self.repeat.identical_executions >= 2 && known {
                            let shown = match &self.repeat.fingerprint {
                                Some(f) => f.clone(),
                                None => fingerprint_text(plain.as_str()),
                            };
                            let ghost f = shown;
                            out.push(
                                Effect::Journal(
                                    SessionEvent::RepeatedActionDetected {
                                        task_id: self.task_id,
                                        fingerprint: shown.clone(),
                                    },
                                ),
                            );
                            out.push(
                                Effect::Tell(
                                    AgentEvent::RepeatedActionDetected { fingerprint: shown },
                                ),
                            );
                            proof {
                                assert(out@.skip(1) =~= repeat_effects(self.task_id, f));
                            }
                            return (out, Step::Turn);
                        }
                        proof {
                            assert(out@.skip(1) =~= Seq::<Effect>::empty());
                        }
                        (out, Step::Confirm { source })
                    },
                }
            },
        }
    }

    /// What follows an answer that nothing superseded, after it was journaled.
    pub open spec fn answer_taken(
        self,
        output: ModelOutput,
        cancelled: bool,
        effects: Seq<Effect>,
        step: Step,
    ) -> bool {
        if cancelled {
            effects == interrupted_effects() && step == Step::Failed(AgentError::Cancelled)
        } else {
            match output {
                ModelOutput::Text(content) => effects == text_effects(self, content) && step
                    == Step::Done(TaskOutcome::AwaitingUser(content)),
                _ => {
                    let plain = normalized(lowered(output)->0);
                    if blocked(self.repeat@, plain) {
                        step == Step::Turn && reports_repeat(
                            effects,
                            self.task_id,
                            match self.repeat@.fingerprint {
                                Some(f) => f,
                                None => crate::agent::fingerprint(plain),
                            },
                        )
                    } else {
                        effects.len() == 0 && (step matches Step::Confirm { source } && source@
                            == lowered(output)->0)
                    }
                },
            }
        }
    }

    /// Takes the controls once more before a program runs. Steering that arrived
    /// meanwhile keeps it from running, and so does a cancellation.
    pub fn confirm(&mut self, source: String, controls: Vec<AgentControl>, cancelled: bool) -> (r: (
        Vec<Effect>,
        Step,
    ))
        ensures
            same_place(*old(self), *final(self)),
            final(self).cancelled == (old(self).cancelled || cancelled || interrupts(controls@)),
            ({
                let steering = steers(controls@);
                if steering.len() > 0 {
                    &&& r.0@ == queued_effects(steering) + applied_effects(
                        old(self).task_id,
                        steering,
                    )
                    &&& r.1 == Step::Turn
                    &&& final(self).repeat@ == no_repeat()
                } else {
                    &&& final(self).repeat@ == old(self).repeat@
                    &&& if final(self).cancelled {
                        r.0@ == interrupted_effects() && r.1 == Step::Failed(AgentError::Cancelled)
                    } else {
                        r.0@.len() == 0 && r.1 == (Step::Execute { source })
                    }
                }
            }),
    {
        let (steering, interrupted) = drain_controls(controls);
        self.cancelled = self.cancelled || cancelled || interrupted;
        let mut out: Vec<Effect> = Vec::new();
        if steering.len() > 0 {
            tell_queued(&steering, &mut out);
            apply_steering(self.task_id, &steering, &mut out);
            self.repeat = RepeatState::fresh();
            proof {
                assert(out@ =~= queued_effects(steers(controls@)) + applied_effects(
                    old(self).task_id,
                    steers(controls@),
                ));
            }
            return (out, Step::Turn);
        }
        if self.cancelled {
            out.push(Effect::Interrupt);
            proof {
                assert(out@ =~= interrupted_effects());
            }
            return (out, Step::Failed(AgentError::Cancelled));
        }
        (out, Step::Execute { source })
    }

    /// The revision a run starts from: the observed one for the root agent, else,
    /// and where it could not be observed, the one the goal records.
    pub fn start_revision(&self, observed: Option<RevisionId>, recorded: &RevisionId) -> (r:
        RevisionId)
        ensures
            r == if self.agent.0 == 0 && observed is Some {
                observed->0
            } else {
                *recorded
            },
    {
        if self.agent.is_root() {
            match observed {
                Some(revision) => revision,
                None => recorded.clone(),
            }
        } else {
            recorded.clone()
        }
    }

    /// Starts a run: what is journaled and told, and the run itself.
    pub fn launch(&self, source: &String, execution_id: ExecutionId, start_revision: RevisionId) -> (r:
        (Vec<Effect>, PtcExecution))
        ensures
            r.0@ == seq![
                Effect::Journal(
                    SessionEvent::PtcStarted {
                        task_id: self.task_id,
                        execution_id,
                        source: *source,
                        start_revision,
                    },
                ),
                Effect::Tell(AgentEvent::PtcStarted),
            ],
            r.1 == (PtcExecution {
                task_id: self.task_id,
                agent: self.agent,
                execution_id,
                start_revision,
            }),
    {
        let mut out: Vec<Effect> = Vec::new();
        out.push(
            Effect::Journal(
                SessionEvent::PtcStarted {
                    task_id: self.task_id,
                    execution_id,
                    source: source.clone(),
                    start_revision: start_revision.clone(),
                },
            ),
        );
        out.push(Effect::Tell(AgentEvent::PtcStarted));
        (
            out,
            PtcExecution { task_id: self.task_id, agent: self.agent, execution_id, start_revision },
        )
    }

    /// Goes on after a run: an interrupt ends the loop; an accepted finish
    /// completes the task, and nothing else does; the second of two identical
    /// runs is reported.
    pub fn executed(
        &mut self,
        source: &str,
        outcome: &PtcOutcome,
        value: &Json,
        finish: Option<String>,
    ) -> (r: (Vec<Effect>, Step))
        requires
            !blocked(old(self).repeat@, normalized(source@)),
        ensures
            same_place(*old(self), *final(self)),
            final(self).cancelled == old(self).cancelled,
            r.1 == after_run(outcome@ is Interrupted, finish),
            outcome@ is Interrupted ==> r.0@ == interrupted_effects() && final(self).repeat@ == old(
                self,
            ).repeat@,
            !(outcome@ is Interrupted) && finish is Some ==> r.0@ == seq![
                Effect::Tell(AgentEvent::TaskCompleted { summary: finish->0 }),
            ] && final(self).repeat@ == old(self).repeat@,
            !(outcome@ is Interrupted) && finish is None ==> {
                let plain = normalized(source@);
                let shown = action_of(plain, outcome@, value.compact());
                &&& final(self).repeat@ == repeated(old(self).repeat@, plain, shown)
                &&& if final(self).repeat@.count == 2 {
                    reports_repeat(r.0@, old(self).task_id, shown)
                } else {
                    r.0@.len() == 0
                }
            },
    {
        let mut out: Vec<Effect> = Vec::new();
        match outcome {
            PtcOutcome::Interrupted => {
                out.push(Effect::Interrupt);
                proof {
                    assert(out@ =~= interrupted_effects());
                }
                return (out, Step::Failed(AgentError::Cancelled));
            },
            _ => {},
        }
        match finish {
            Some(summary) => {
                out.push(Effect::Tell(AgentEvent::TaskCompleted { summary: summary.clone() }));
                proof {
                    assert(out@ =~= seq![
                        Effect::Tell(AgentEvent::TaskCompleted { summary }),
                    ]);
                }
                return (out, Step::Done(TaskOutcome::Completed(summary)));
            },
            None => {},
        }
        let plain = normalize_source(source);
        let shown = action_fingerprint(plain.as_str(), outcome, value);
        let again = match (&self.repeat.normalized_source, &self.repeat.fingerprint) {
            (Some(s), Some(f)) => same(s.as_str(), plain.as_str()) && same(
                f.as_str(),
                shown.as_str(),
            ),
            _ => false,
        };
        let ghost f = shown;
        let report = shown.clone();
        if again {
            self.repeat.identical_executions = self.repeat.identical_executions + 1;
        } else {
            self.repeat = RepeatState {
                normalized_source: Some(plain),
                fingerprint: Some(shown),
                identical_executions: 1,
            };
        }
        if self.repeat.identical_executions == 2 {
            out.push(
                Effect::Journal(
                    SessionEvent::RepeatedActionDetected {
                        task_id: self.task_id,
                        fingerprint: report.clone(),
                    },
                ),
            );
            out.push(Effect::Tell(AgentEvent::RepeatedActionDetected { fingerprint: report }));
            proof {
                assert(out@ =~= repeat_effects(self.task_id, f));
            }
        }
        (out, Step::Turn)
    }

    /// Closes a window: its semantic state is written down as a checkpoint.
    pub fn compact(&self, view: &TaskView) -> (r: Vec<Effect>)
        ensures
            r@.len() == 2,
            r@[0] matches Effect::Journal(
                SessionEvent::Compacted { task_id, agent, window, summary, checkpoint },
            ) && task_id == self.task_id && agent == self.agent && window == view.window && (
            checkpoint matches Some(c) && is_checkpoint_of(c, *view) && summary@ == c.rendered() && (
            r@[1] matches Effect::Tell(AgentEvent::Compacted { window: w, tokens }) && w
                == view.window && tokens == tokens_of(c.rendered()))),
    {
        let checkpoint = build_checkpoint(view);
        let rendered = checkpoint.render();
        let tokens: usize = estimate_tokens(rendered.as_str());
        let mut out: Vec<Effect> = Vec::new();
        out.push(
            Effect::Journal(
                SessionEvent::Compacted {
                    task_id: self.task_id,
                    agent: self.agent,
                    window: view.window,
                    summary: rendered,
                    checkpoint: Some(checkpoint),
                },
            ),
        );
        out.push(Effect::Tell(AgentEvent::Compacted { window: view.window, tokens }));
        out
    }
}

/// What is journaled and told of a text answer: the root agent's task then waits
/// for the user; a worker settles instead, so that its parent's join resolves.
pub open spec fn text_effects(run: TaskRun, content: String) -> Seq<Effect> {
    seq![
        Effect::Journal(SessionEvent::AssistantMessage { task_id: run.task_id, content }),
        Effect::Tell(AgentEvent::AssistantMessage { content }),
    ] + (if run.agent.0 == 0 {
        seq![Effect::SetStatus { status: TaskStatus::WaitingUser, reason: None }]
    } else {
        Seq::empty()
    })
}

/// The kind of an answer.
pub open spec fn kind_of_output(output: ModelOutput) -> Seq<char> {
    match output {
        ModelOutput::Text(_) => "text"@,
        ModelOutput::Program { .. } => "program"@,
        ModelOutput::FunctionCall { .. } => "function_call"@,
    }
}

/// What is told of a run that ended.
pub fn run_completed(outcome: &PtcOutcome, tool_calls: usize, duration_ms: u64) -> (r: AgentEvent)
    ensures
        r matches AgentEvent::ToolCompleted { outcome: shown, tool_calls: n, duration_ms: ms }
            && shown@ == outcome_shown(outcome@) && n == tool_calls && ms == duration_ms,
{
    AgentEvent::ToolCompleted { outcome: outcome_text(outcome), tool_calls, duration_ms }
}

/// The refusal to resume, where it is refused.
pub open spec fn resume_refusal(target: Option<(TaskId, TaskStatus)>) -> Option<Seq<char>> {
    match target {
        None => Some("no task to resume"@),
        Some((task, status)) => if status.active() {
            None
        } else {
            Some("task "@ + decimal(task.0 as nat) + " already "@ + status.name())
        },
    }
}

/// The task to resume: one that is active.
pub fn resume_task(target: Option<(TaskId, TaskStatus)>) -> (r: Result<TaskId, AgentError>)
    ensures
        match r {
            Ok(task) => resume_refusal(target) is None && speaks_of(target, task),
            Err(e) => e matches AgentError::Session(SessionError::State(m)) && resume_refusal(
                target,
            ) == Some(m@),
        },
{
    match target {
        None => Err(AgentError::Session(SessionError::State(text("no task to resume")))),
        Some((task, status)) => {
            if status.is_active() {
                return Ok(task);
            }
            let mut m = text("task ");
            m.append(decimal_text(task.0).as_str());
            m.append(" already ");
            m.append(status.label());
            Err(AgentError::Session(SessionError::State(m)))
        },
    }
}

/// The task that a message continues: the root task while it is active. Without
/// one a message starts a new task.
pub fn message_target(root: Option<(TaskId, TaskStatus)>) -> (r: Option<TaskId>)
    ensures
        match r {
            Some(task) => speaks_of(root, task) && resume_refusal(root) is None,
            None => resume_refusal(root) is Some,
        },
{
    match root {
        Some((task, status)) => if status.is_active() {
            Some(task)
        } else {
            None
        },
        None => None,
    }
}

/// What is journaled and told of a prelude that a run loads: which tools every
/// later call and verification was made with.
pub fn prelude_loaded(prelude: &Prelude) -> (r: Vec<Effect>)
    ensures
        r@.len() == 2,
        r@[0] matches Effect::Journal(SessionEvent::PreludeLoaded { path, prelude: id, described })
            && path@ == prelude.path@ && id.0@ == identity_of(prelude.source@) && described
            == description_of(prelude.source@) is Some,
        r@[1] matches Effect::Tell(AgentEvent::PreludeLoaded { path, described }) && path@
            == prelude.path@ && described == description_of(prelude.source@) is Some,
{
    let described = prelude.description().is_some();
    let mut out: Vec<Effect> = Vec::new();
    out.push(
        Effect::Journal(
            SessionEvent::PreludeLoaded {
                path: prelude.path.clone(),
                prelude: prelude.identity(),
                described,
            },
        ),
    );
    out.push(Effect::Tell(AgentEvent::PreludeLoaded { path: prelude.path.clone(), described }));
    out
}

/// What is told of processes that a previous run left: they are over, and are not
/// passed off as live.
pub fn tell_recovered(recovered: &Vec<ProcessSnapshot>) -> (r: Vec<Effect>)
    ensures
        r@ == recovered@.map_values(
            |s: ProcessSnapshot|
                Effect::Tell(
                    AgentEvent::ProcessExited { process: s.id, exit_code: s.exit_code },
                ),
        ),
{
    let mut out: Vec<Effect> = Vec::new();
    let mut i: usize = 0;
    while i < recovered.len()
        invariant
            i <= recovered.len(),
            out@.len() == i,
            forall|k: int|
                0 <= k < i ==> #[trigger] out@[k] == Effect::Tell(
                    AgentEvent::ProcessExited {
                        process: recovered@[k].id,
                        exit_code: recovered@[k].exit_code,
                    },
                ),
        decreases recovered.len() - i,
    {
        out.push(
            Effect::Tell(
                AgentEvent::ProcessExited {
                    process: recovered[i].id,
                    exit_code: recovered[i].exit_code,
                },
            ),
        );
        i = i + 1;
    }
    proof {
        assert(out@ =~= recovered@.map_values(
            |s: ProcessSnapshot|
                Effect::Tell(
                    AgentEvent::ProcessExited { process: s.id, exit_code: s.exit_code },
                ),
        ));
    }
    out
}

/// What is journaled of a message before the loop of its task runs.
pub fn deliver_message(task_id: TaskId, message: &str) -> (r: Vec<Effect>)
    ensures
        r@.len() == 1,
        r@[0] matches Effect::Journal(SessionEvent::UserMessage { task_id: t, content }) && t
            == task_id && content@ == message@,
{
    let mut out: Vec<Effect> = Vec::new();
    out.push(Effect::Journal(SessionEvent::UserMessage { task_id, content: text(message) }));
    out
}

/// What is journaled of a task that another process is to run: its message, and
/// that it waits to be taken up.
pub fn start_detached_task(task_id: TaskId, task: &str) -> (r: Vec<Effect>)
    ensures
        r@.len() == 2,
        r@[0] matches Effect::Journal(SessionEvent::UserMessage { task_id: t, content }) && t
            == task_id && content@ == task@,
        r@[1] == (Effect::SetStatus { status: TaskStatus::Queued, reason: None }),
{
    let mut out = deliver_message(task_id, task);
    out.push(Effect::SetStatus { status: TaskStatus::Queued, reason: None });
    out
}

/// Whether the isolated workspaces of a task go when its loop ends: only where it
/// completed. A task that is parked or failed keeps them.
pub open spec fn collects(outcome: Result<TaskOutcome, AgentError>) -> bool {
    outcome matches Ok(o) && o is Completed
}

/// The tasks whose isolated workspaces go when the loop of a task ends: its own,
/// and those of its workers, to which the workspaces were given.
pub fn cleans_up(
    task_id: TaskId,
    outcome: &Result<TaskOutcome, AgentError>,
    workers: &Vec<AgentRecord>,
) -> (r: Vec<TaskId>)
    ensures
        r@ == if collects(*outcome) {
            seq![task_id] + workers@.map_values(|worker: AgentRecord| worker.task_id)
        } else {
            Seq::<TaskId>::empty()
        },
{
    let mut owners: Vec<TaskId> = Vec::new();
    let completed = match outcome {
        Ok(o) => o.is_complete(),
        Err(_) => false,
    };
    if !completed {
        return owners;
    }
    owners.push(task_id);
    let mut i: usize = 0;
    while i < workers.len()
        invariant
            i <= workers.len(),
            owners@.len() == i + 1,
            owners@[0] == task_id,
            forall|j: int| 0 <= j < i ==> #[trigger] owners@[j + 1] == workers@[j].task_id,
        decreases workers.len() - i,
    {
        owners.push(workers[i].task_id);
        i = i + 1;
    }
    proof {
        let tasks = workers@.map_values(|worker: AgentRecord| worker.task_id);
        assert forall|k: int| 0 <= k < owners@.len() implies #[trigger] owners@[k] == (seq![task_id]
            + tasks)[k] by {
            if k > 0 {
                assert(owners@[(k - 1) + 1] == workers@[k - 1].task_id);
            }
        }
        assert(owners@ =~= seq![task_id] + tasks);
    }
    owners
}

} // verus!
