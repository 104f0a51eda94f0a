//! What a task does from turn to turn, and what is said of it.
use vstd::prelude::*;
use crate::agent::{action_of, applied_effects, blocked, durable_effects, fingerprint, inbox_effects, interrupts, newest_completion, no_repeat, normalized, outcome_shown, prelude_step, queued_effects, repeated, steers, told, AgentControl, AgentError, AgentEvent, Effect, PreludeRejection, PreludeStep, Repeat, Step, TaskOutcome};
use crate::delegation::{same_result, AgentState, DelegateResult, DelegationBudget};
use crate::goal::{titles_of, TaskStatus};
use crate::identity::{AgentId, TaskId};
use crate::laws::texts::{lemma_in_sum, lemma_shows};
use crate::model::{lowered, GenerationStopReason, ModelError, ModelOutput};
use crate::process::{ProcessSnapshot, ProcessState};
use crate::ptc::prelude::PreludeOrigin;
use crate::ptc::runtime::{Outcome, PtcEvent};
use crate::ptc::trust::Trust;
use crate::runtime::{by_agent, records_state, reports_task, state_name, threads_of, worker_limit, worker_map, TaskReport, Worker, WorkerSnapshot};
use crate::session::{same_evidence, EventRecord, EvidenceRecord, SessionEvent, TaskView};
use crate::text::{contains, head, is_space, views, words};
use crate::turns::{after_answer, after_run, collects, generation, resume_refusal, same_place, text_effects, TaskRun};

verus! {

/// What the user said while the task ran is taken up in its order, and nothing of
/// it is lost; an interrupt is heard wherever it stands among it.
pub proof fn law_steering_is_taken_up_in_order(
    controls: Seq<AgentControl>,
    content: String,
    i: int,
)
    ensures
        steers(Seq::empty()) == Seq::<String>::empty(),
        steers(controls.push(AgentControl::Steer(content))) == steers(controls).push(content),
        steers(controls.push(AgentControl::Interrupt)) == steers(controls),
        0 <= i < controls.len() && controls[i] == AgentControl::Interrupt ==> interrupts(controls),
        interrupts(controls) ==> exists|j: int|
            0 <= j < controls.len() && #[trigger] controls[j] == AgentControl::Interrupt,
{
    assert(controls.push(AgentControl::Steer(content)).drop_last() =~= controls);
    assert(controls.push(AgentControl::Interrupt).drop_last() =~= controls);
}

/// Every message that steers a task is journaled as queued and as applied, and
/// told, in the order in which the messages came.
pub proof fn law_steering_is_journaled(task_id: TaskId, steering: Seq<String>, i: int)
    requires
        0 <= i < steering.len(),
    ensures
        applied_effects(task_id, steering).len() == 3 * steering.len(),
        applied_effects(task_id, steering)[3 * i] == Effect::Journal(
            SessionEvent::SteeringQueued { task_id, content: steering[i] },
        ),
        applied_effects(task_id, steering)[3 * i + 1] == Effect::Journal(
            SessionEvent::SteeringApplied { task_id, content: steering[i] },
        ),
        applied_effects(task_id, steering)[3 * i + 2] == Effect::Tell(
            AgentEvent::SteeringApplied { content: steering[i] },
        ),
        queued_effects(steering).len() == steering.len(),
        queued_effects(steering)[i] == Effect::Tell(
            AgentEvent::SteeringQueued { content: steering[i] },
        ),
    decreases steering.len(),
{
    let init = steering.drop_last();
    lemma_applied_len(task_id, init);
    if i < steering.len() - 1 {
        law_steering_is_journaled(task_id, init, i);
    }
}

proof fn lemma_applied_len(task_id: TaskId, steering: Seq<String>)
    ensures
        applied_effects(task_id, steering).len() == 3 * steering.len(),
    decreases steering.len(),
{
    if steering.len() > 0 {
        lemma_applied_len(task_id, steering.drop_last());
    }
}

/// Every message that waited in the journal or in a worker's inbox is journaled as
/// applied, and told, in order.
pub proof fn law_waiting_messages_are_applied(
    agent: AgentId,
    task_id: TaskId,
    waiting: Seq<String>,
    i: int,
)
    requires
        0 <= i < waiting.len(),
    ensures
        durable_effects(task_id, waiting).len() == 2 * waiting.len(),
        durable_effects(task_id, waiting)[2 * i] == Effect::Journal(
            SessionEvent::SteeringApplied { task_id, content: waiting[i] },
        ),
        durable_effects(task_id, waiting)[2 * i + 1] == Effect::Tell(
            AgentEvent::SteeringApplied { content: waiting[i] },
        ),
        inbox_effects(agent, task_id, waiting).len() == 2 * waiting.len(),
        inbox_effects(agent, task_id, waiting)[2 * i] == Effect::Journal(
            SessionEvent::AgentMessageApplied { agent, task_id, content: waiting[i] },
        ),
        inbox_effects(agent, task_id, waiting)[2 * i + 1] == Effect::Tell(
            AgentEvent::SteeringApplied { content: waiting[i] },
        ),
    decreases waiting.len(),
{
    let init = waiting.drop_last();
    lemma_waiting_len(agent, task_id, init);
    if i < waiting.len() - 1 {
        law_waiting_messages_are_applied(agent, task_id, init, i);
    }
}

proof fn lemma_waiting_len(agent: AgentId, task_id: TaskId, waiting: Seq<String>)
    ensures
        durable_effects(task_id, waiting).len() == 2 * waiting.len(),
        inbox_effects(agent, task_id, waiting).len() == 2 * waiting.len(),
    decreases waiting.len(),
{
    if waiting.len() > 0 {
        lemma_waiting_len(agent, task_id, waiting.drop_last());
    }
}

/// The start and the end of every host call, and every verification, is told in
/// the order in which it happened; a change of the workspace is not.
pub proof fn law_what_a_program_does_is_told(events: Seq<PtcEvent>, event: PtcEvent)
    ensures
        told(Seq::empty()) == Seq::<AgentEvent>::empty(),
        event matches PtcEvent::HostCallStarted { call_id, name, .. } ==> told(events.push(event))
            == told(events).push(AgentEvent::PtcHostCallStarted { call_id, name }),
        event matches PtcEvent::HostCallCompleted { call_id, name, ok, duration_ms, .. } ==> told(
            events.push(event),
        ) == told(events).push(
            AgentEvent::PtcHostCallCompleted { call_id, name, ok, duration_ms },
        ),
        event matches PtcEvent::EvidenceRecorded { evidence } ==> told(events.push(event)) == told(
            events,
        ).push(AgentEvent::EvidenceRecorded { kind: evidence.kind, ok: evidence.ok }),
        event is WorkspaceRevisionChanged ==> told(events.push(event)) == told(events),
{
    assert(events.push(event).drop_last() =~= events);
}

/// A task counts as finished with the summary of its last completion in the
/// journal; completions of other tasks do not count.
pub proof fn law_the_last_completion_counts(events: Seq<EventRecord>, task: TaskId, k: int)
    ensures
        0 <= k < events.len() && (events[k].event matches SessionEvent::TaskCompleted {
            task_id,
            summary,
        } && task_id == task) && (forall|j: int|
            k < j < events.len() ==> !((#[trigger] events[j]).event matches
                SessionEvent::TaskCompleted { task_id, .. } && task_id == task))
            ==> newest_completion(events, task) == Some(events[k].event->TaskCompleted_summary),
        (forall|j: int|
            0 <= j < events.len() ==> !((#[trigger] events[j]).event matches
                SessionEvent::TaskCompleted { task_id, .. } && task_id == task)) ==>
            newest_completion(events, task) is None,
    decreases events.len(),
{
    if events.len() > 0 {
        let init = events.drop_last();
        law_the_last_completion_counts(init, task, k);
        assert(events[events.len() - 1] == events.last());
        assert forall|j: int| 0 <= j < init.len() implies (#[trigger] init[j]) == events[j] by {}
    }
}

/// A program is held back exactly where the same program, run twice in a row,
/// came to the same both times.
pub proof fn law_a_program_is_held_back_after_two_like_runs(
    first: Seq<char>,
    second: Seq<char>,
    next: Seq<char>,
    f: Seq<char>,
    g: Seq<char>,
    before: Repeat,
)
    ensures
        blocked(repeated(repeated(no_repeat(), first, f), second, g), next) <==> first == second
            && f == g && second == next,
        !blocked(repeated(no_repeat(), first, f), next),
        !blocked(no_repeat(), next),
        repeated(before, first, f).source == Some(first),
        repeated(before, first, f).fingerprint == Some(f),
        before.source != Some(first) || before.fingerprint != Some(f) ==> repeated(
            before,
            first,
            f,
        ).count == 1,
        before.source == Some(first) && before.fingerprint == Some(f) ==> repeated(
            before,
            first,
            f,
        ).count == before.count + 1,
{
}

/// What a program came to is known by its source, its outcome and the first of
/// its value.
pub proof fn law_an_action_is_known_by_what_it_did(
    source: Seq<char>,
    outcome: Outcome,
    value: Seq<char>,
)
    ensures
        exists|did: Seq<char>|
            action_of(source, outcome, value) == #[trigger] fingerprint(did) && contains(
                did,
                source,
            ) && contains(did, outcome_shown(outcome)) && contains(did, head(value, 4096)),
{
    let shown = outcome_shown(outcome);
    let a = source + "\n"@;
    let b = a + shown;
    let c = b + "\n"@;
    let d = c + head(value, 4096);
    lemma_in_sum(source, "\n"@);
    lemma_in_sum(a, shown);
    lemma_in_sum(b, "\n"@);
    lemma_in_sum(c, head(value, 4096));
    lemma_shows(b, a, source);
    lemma_shows(c, b, source);
    lemma_shows(d, c, source);
    lemma_shows(c, b, shown);
    lemma_shows(d, c, shown);
    assert(action_of(source, outcome, value) == fingerprint(d));
}

/// The words of a text are taken apart at white space, and how much of it there is
/// does not matter.
pub proof fn law_words_are_what_white_space_parts(s: Seq<char>, word: Seq<char>, c: char)
    ensures
        words(Seq::empty()) == Seq::<Seq<char>>::empty(),
        is_space(c) ==> words(s.push(c)) == words(s) && normalized(s.push(c)) == normalized(s),
        is_space(c) && word.len() > 0 && (forall|i: int|
            0 <= i < word.len() ==> !is_space(#[trigger] word[i])) ==> words(s.push(c) + word)
            == words(s).push(word),
    decreases word.len(),
{
    assert(s.push(c).drop_last() =~= s);
    if is_space(c) && word.len() > 0 && (forall|i: int|
        0 <= i < word.len() ==> !is_space(#[trigger] word[i])) {
        let all = s.push(c) + word;
        let init = word.drop_last();
        assert(!is_space(word[word.len() - 1]));
        assert(all.last() == word[word.len() - 1]);
        assert(all.drop_last() =~= s.push(c) + init);
        if word.len() == 1 {
            assert(s.push(c) + init =~= s.push(c));
            assert(all[all.len() - 2] == c);
            assert(word =~= seq![all.last()]);
            assert(words(all) == words(s.push(c)).push(seq![all.last()]));
        } else {
            assert forall|i: int| 0 <= i < init.len() implies !is_space(#[trigger] init[i]) by {
                assert(init[i] == word[i]);
            }
            law_words_are_what_white_space_parts(s, init, c);
            assert(all[all.len() - 2] == word[word.len() - 2]);
            assert(!is_space(word[word.len() - 2]));
            let was = words(s).push(init);
            assert(words(all.drop_last()) == was);
            assert(words(all) == was.drop_last().push(was.last().push(all.last())));
            assert(was.drop_last() =~= words(s));
            assert(init.push(word.last()) =~= word);
        }
    }
}

/// A prelude of the workspace is used only where it is trusted; one that was
/// turned down stays out; one that nobody judged is asked about, where anybody can
/// be asked, and stays out where nobody can. A prelude from elsewhere is used.
pub proof fn law_a_prelude_is_used_where_it_is_trusted(
    origin: PreludeOrigin,
    store: Option<Trust>,
    can_ask: bool,
)
    ensures
        !(origin is Workspace) ==> prelude_step(origin, store, can_ask) == PreludeStep::Use,
        origin is Workspace ==> {
            &&& store == Some(Trust::Trusted) <==> prelude_step(origin, store, can_ask)
                == PreludeStep::Use
            &&& store == Some(Trust::Unknown) && can_ask <==> prelude_step(origin, store, can_ask)
                == PreludeStep::Ask
            &&& store == Some(Trust::Unknown) && !can_ask <==> prelude_step(origin, store, can_ask)
                == PreludeStep::Reject(PreludeRejection::CannotConfirm)
            &&& store == Some(Trust::Rejected) <==> prelude_step(origin, store, can_ask)
                == PreludeStep::Reject(PreludeRejection::PreviouslyRejected)
            &&& store is None <==> prelude_step(origin, store, can_ask) == PreludeStep::Reject(
                PreludeRejection::NoTrustStore,
            )
        },
{
}

/// An answer counts where nothing was said to the model meanwhile; else it is
/// dropped, and the model is asked again. An interrupt of the user ends the task,
/// and any other failure is passed on.
pub proof fn law_an_answer_counts_where_nobody_steered(
    output: ModelOutput,
    error: ModelError,
    steered: bool,
)
    ensures
        generation(Ok(output), false) == Ok::<Option<ModelOutput>, AgentError>(Some(output)),
        generation(Ok(output), true) == Ok::<Option<ModelOutput>, AgentError>(None),
        generation(
            Err(ModelError::Stopped(GenerationStopReason::UserInterrupt)),
            steered,
        ) == Err::<Option<ModelOutput>, AgentError>(AgentError::Cancelled),
        generation(Err(ModelError::Stopped(GenerationStopReason::Superseded)), true) == Ok::<
            Option<ModelOutput>,
            AgentError,
        >(None),
        generation(Err(ModelError::Stopped(GenerationStopReason::Superseded)), false) is Err,
        !(error is Stopped) ==> generation(Err(error), steered) == Err::<
            Option<ModelOutput>,
            AgentError,
        >(AgentError::Model(error)),
{
}

/// Text does not complete a task: it is journaled, told, and the task waits for
/// the user. A worker has nobody to wait for.
pub proof fn law_text_waits_for_the_user(run: TaskRun, content: String, repeat: Repeat)
    ensures
        after_answer(ModelOutput::Text(content), repeat) == Some(
            Step::Done(TaskOutcome::AwaitingUser(content)),
        ),
        text_effects(run, content)[0] == Effect::Journal(
            SessionEvent::AssistantMessage { task_id: run.task_id, content },
        ),
        text_effects(run, content)[1] == Effect::Tell(AgentEvent::AssistantMessage { content }),
        run.agent.0 == 0 ==> text_effects(run, content).len() == 3 && text_effects(run, content)[2]
            == (Effect::SetStatus { status: TaskStatus::WaitingUser, reason: None }),
        run.agent.0 != 0 ==> text_effects(run, content).len() == 2,
{
}

/// A program that is not held back goes on to be run, as it was given; one that is
/// held back is reported, and the model gets another turn.
pub proof fn law_a_program_is_run_or_reported(
    run: TaskRun,
    output: ModelOutput,
    effects: Seq<Effect>,
    step: Step,
)
    requires
        run.answer_taken(output, false, effects, step),
        !(output is Text),
    ensures
        lowered(output) is Some,
        blocked(run.repeat@, normalized(lowered(output)->0)) ==> step == Step::Turn && effects.len()
            == 2 && (effects[0] matches Effect::Journal(SessionEvent::RepeatedActionDetected {
            task_id,
            ..
        }) && task_id == run.task_id),
        !blocked(run.repeat@, normalized(lowered(output)->0)) ==> effects.len() == 0 && (
        step matches Step::Confirm { source } && source@ == lowered(output)->0),
{
}

/// A task that was interrupted takes no answer.
pub proof fn law_an_interrupted_task_takes_no_answer(
    run: TaskRun,
    output: ModelOutput,
    effects: Seq<Effect>,
    step: Step,
)
    requires
        run.answer_taken(output, true, effects, step),
    ensures
        step == Step::Failed(AgentError::Cancelled),
        effects == seq![Effect::Interrupt],
{
}

/// After a program ran, the task completes where its finish was accepted, ends
/// where the user interrupted it, and else takes another turn.
pub proof fn law_a_run_ends_or_goes_on(interrupted: bool, finish: Option<String>)
    ensures
        interrupted ==> after_run(interrupted, finish) == Step::Failed(AgentError::Cancelled),
        !interrupted && finish is Some ==> after_run(interrupted, finish) == Step::Done(
            TaskOutcome::Completed(finish->0),
        ),
        !interrupted && finish is None ==> after_run(interrupted, finish) == Step::Turn,
{
}

/// Only a live task is resumed, and only a completed one is cleaned up after.
pub proof fn law_only_a_live_task_is_resumed(
    task: TaskId,
    status: TaskStatus,
    summary: String,
    error: AgentError,
)
    ensures
        resume_refusal(None) is Some,
        resume_refusal(Some((task, status))) is None <==> status != TaskStatus::Completed && status
            != TaskStatus::Failed && status != TaskStatus::Cancelled,
        collects(Ok(TaskOutcome::Completed(summary))),
        !collects(Ok(TaskOutcome::AwaitingUser(summary))),
        !collects(Err(error)),
{
}

/// The names that a journal gives the states of a process tell them apart. Only a
/// process that runs is called running.
pub proof fn law_process_states_have_their_names(a: ProcessState, b: ProcessState)
    ensures
        state_name(a) == "running"@ <==> a == ProcessState::Running,
        state_name(a) == state_name(b) <==> a == b,
{
    reveal_strlit("running");
    reveal_strlit("exited");
    reveal_strlit("killed");
    reveal_strlit("failed");
    reveal_strlit("orphaned");
    assert("running"@[0] == 'r' && "exited"@[0] == 'e' && "killed"@[0] == 'k' && "failed"@[0] == 'f'
        && "orphaned"@[0] == 'o');
}

/// The names of the states of a worker tell them apart, and it has settled in the
/// three that end it.
pub proof fn law_worker_states_have_their_names(a: AgentState, b: AgentState)
    ensures
        a.name() == b.name() <==> a == b,
        a.terminal() <==> a == AgentState::Completed || a == AgentState::Failed || a
            == AgentState::Cancelled,
{
    reveal_strlit("queued");
    reveal_strlit("running");
    reveal_strlit("waiting");
    reveal_strlit("completed");
    reveal_strlit("failed");
    reveal_strlit("cancelled");
    assert("queued"@[0] == 'q' && "running"@[0] == 'r' && "waiting"@[0] == 'w' && "failed"@[0]
        == 'f');
    assert("completed"@[1] == 'o' && "cancelled"@[1] == 'a');
    assert("completed"@[0] == 'c' && "cancelled"@[0] == 'c');
}

/// The names of the states of a task tell them apart.
pub proof fn law_task_states_have_their_names(a: TaskStatus, b: TaskStatus)
    ensures
        a.name() == b.name() <==> a == b,
{
    reveal_strlit("queued");
    reveal_strlit("running");
    reveal_strlit("waiting-agent");
    reveal_strlit("waiting-process");
    reveal_strlit("waiting-user");
    reveal_strlit("blocked");
    reveal_strlit("verifying");
    reveal_strlit("completed");
    reveal_strlit("failed");
    reveal_strlit("cancelled");
    assert("queued"@[0] == 'q' && "running"@[0] == 'r' && "waiting-agent"@[0] == 'w'
        && "waiting-process"@[0] == 'w' && "waiting-user"@[0] == 'w' && "blocked"@[0] == 'b'
        && "verifying"@[0] == 'v' && "completed"@[0] == 'c' && "failed"@[0] == 'f'
        && "cancelled"@[0] == 'c');
    assert("waiting-agent"@[8] == 'a' && "waiting-process"@[8] == 'p' && "waiting-user"@[8] == 'u');
    assert("completed"@[1] == 'o' && "cancelled"@[1] == 'a');
}

/// What the journal records of a process is its own number, state and exit code,
/// under its task.
pub proof fn law_a_process_is_recorded_as_it_is(
    event: SessionEvent,
    task: TaskId,
    snapshot: ProcessSnapshot,
    alive: Option<bool>,
)
    requires
        records_state(event, task, snapshot, alive),
    ensures
        event.owner() == Some(task),
        event matches SessionEvent::ProcessStateChanged {
            process,
            state,
            exit_code,
            pid_alive,
            ..
        } && process == snapshot.id && exit_code == snapshot.exit_code && pid_alive == alive && (
        state@ == "running"@ <==> snapshot.state == ProcessState::Running),
{
    law_process_states_have_their_names(snapshot.state, snapshot.state);
}

/// No more workers run than either budget allows, and as many as both do.
pub proof fn law_both_budgets_bound_the_workers(budget: DelegationBudget)
    ensures
        worker_limit(budget) <= budget.max_children,
        worker_limit(budget) <= budget.max_parallel_children,
        worker_limit(budget) == budget.max_children || worker_limit(budget)
            == budget.max_parallel_children,
{
}

/// A worker is found under its own number, as it was registered.
pub proof fn law_a_worker_is_found_by_its_number(workers: Seq<Worker>, i: int, agent: u64)
    requires
        by_agent(workers),
    ensures
        0 <= i < workers.len() ==> worker_map(workers).contains_key(workers[i].agent.0)
            && worker_map(workers)[workers[i].agent.0] == workers[i],
        worker_map(workers).contains_key(agent) ==> exists|j: int|
            0 <= j < workers.len() && (#[trigger] workers[j]).agent.0 == agent,
{
    if 0 <= i < workers.len() {
        let agent = workers[i].agent.0;
        assert(crate::runtime::worker_at(workers, agent, i));
        let j = choose|j: int| crate::runtime::worker_at(workers, agent, j);
        if j < i {
            assert(workers[j].agent.0 < workers[i].agent.0);
        } else if i < j {
            assert(workers[i].agent.0 < workers[j].agent.0);
        }
    }
    if worker_map(workers).contains_key(agent) {
        let j = choose|j: int| crate::runtime::worker_at(workers, agent, j);
        assert(workers[j].agent.0 == agent);
    }
}

/// What is shown of a worker is what is known of it.
pub proof fn law_a_worker_is_shown_as_it_is(worker: Worker, shown: WorkerSnapshot)
    requires
        worker.shown_by(shown),
    ensures
        shown.agent == worker.agent,
        shown.task_id == worker.task_id,
        shown.objective@ == worker.objective@,
        shown.access == worker.access,
        shown.profile == worker.profile,
        shown.state == worker.state,
        shown.result is Some <==> worker.result is Some,
        shown.result is Some && worker.result is Some ==> same_result(
            shown.result->0,
            worker.result->0,
        ),
{
}

/// A result is passed on as it is, field by field.
pub proof fn law_a_result_is_passed_on_as_it_is(a: DelegateResult, b: DelegateResult, i: int)
    requires
        same_result(a, b),
    ensures
        a.task_id == b.task_id,
        a.agent == b.agent,
        a.ok == b.ok,
        a.summary@ == b.summary@,
        a.base_revision.0@ == b.base_revision.0@,
        a.final_revision.0@ == b.final_revision.0@,
        a.changed == b.changed,
        a.workspace == b.workspace,
        a.findings.text@ == b.findings.text@,
        a.evidence@.len() == b.evidence@.len(),
        0 <= i < a.evidence@.len() ==> a.evidence@[i].kind@ == b.evidence@[i].kind@
            && a.evidence@[i].ok == b.evidence@[i].ok && a.evidence@[i].revision.0@
            == b.evidence@[i].revision.0@,
{
    if 0 <= i < a.evidence@.len() {
        assert(crate::session::same_evidence(a.evidence@[i], b.evidence@[i]));
    }
}

/// The threads that are waited for are those of the workers that have one, in the
/// order of the workers.
pub proof fn law_threads_are_those_of_the_workers(workers: Seq<Worker>, worker: Worker)
    ensures
        threads_of(Seq::empty()) == Seq::<AgentId>::empty(),
        worker.has_thread ==> threads_of(workers.push(worker)) == threads_of(workers).push(
            worker.agent,
        ),
        !worker.has_thread ==> threads_of(workers.push(worker)) == threads_of(workers),
{
    assert(workers.push(worker).drop_last() =~= workers);
}

/// A report says of a task what the journal says of it.
pub proof fn law_a_report_is_of_the_task(report: TaskReport, view: TaskView, i: int)
    requires
        reports_task(report, view),
    ensures
        report.task_id == view.task_id,
        report.agent == view.agent,
        report.objective@ == view.goal.objective@,
        report.status == view.goal.status,
        report.window == view.window,
        report.revision.0@ == view.goal.current_revision.0@,
        report.cancel_requested == view.cancel_requested,
        report.workers@.len() == view.agents@.len(),
        0 <= i < view.agents@.len() ==> report.workers@[i].0 == view.agents@[i].agent
            && report.workers@[i].1 == view.agents@[i].state && report.workers@[i].2@
            == view.agents@[i].objective@,
        report.processes@.len() == view.processes@.len(),
        0 <= i < view.processes@.len() ==> report.processes@[i].0 == view.processes@[i].process
            && report.processes@[i].1@ == view.processes@[i].state@,
        report.pending@.len() == view.goal.pending_work@.len(),
        0 <= i < view.goal.pending_work@.len() ==> report.pending@[i]@
            == view.goal.pending_work@[i].title@,
        report.blockers@.len() == view.goal.blockers@.len(),
        0 <= i < view.goal.blockers@.len() ==> report.blockers@[i]@
            == view.goal.blockers@[i].summary@,
        report.pending_steering@.len() == view.pending_steering@.len(),
        0 <= i < view.pending_steering@.len() ==> report.pending_steering@[i]@
            == view.pending_steering@[i]@,
        report.last_message is Some <==> view.latest_user_message is Some,
        report.last_message is Some && view.latest_user_message is Some ==> report.last_message->0@
            == view.latest_user_message->0@,
{
    if 0 <= i < view.agents@.len() {
        assert(report.workers@[i] == report.workers@[i]);
    }
    if 0 <= i < view.processes@.len() {
        assert(report.processes@[i] == report.processes@[i]);
    }
    assert(views(report.pending@).len() == report.pending@.len());
    assert(titles_of(view.goal.pending_work@).len() == view.goal.pending_work@.len());
    assert(views(report.blockers@).len() == report.blockers@.len());
    assert(views(report.pending_steering@).len() == report.pending_steering@.len());
    assert(views(view.pending_steering@).len() == view.pending_steering@.len());
    if 0 <= i < view.goal.pending_work@.len() {
        assert(views(report.pending@)[i] == report.pending@[i]@);
        assert(titles_of(view.goal.pending_work@)[i] == view.goal.pending_work@[i].title@);
    }
    if 0 <= i < view.goal.blockers@.len() {
        assert(views(report.blockers@)[i] == report.blockers@[i]@);
        assert(crate::runtime::summaries(view.goal.blockers@)[i]
            == view.goal.blockers@[i].summary@);
    }
    if 0 <= i < view.pending_steering@.len() {
        assert(views(report.pending_steering@)[i] == report.pending_steering@[i]@);
        assert(views(view.pending_steering@)[i] == view.pending_steering@[i]@);
    }
}

/// A verification is passed on as it was recorded.
pub proof fn law_a_verification_is_passed_on_as_it_is(a: EvidenceRecord, b: EvidenceRecord)
    requires
        same_evidence(a, b),
    ensures
        a.kind@ == b.kind@,
        a.ok == b.ok,
        a.revision.0@ == b.revision.0@,
        a.result_ids@ == b.result_ids@,
        a.note == b.note,
        a.timestamp_ms == b.timestamp_ms,
        a.task_id == b.task_id,
        a.execution_id == b.execution_id,
        a.prelude == b.prelude,
{
}

/// A step of a task leaves the task, its limits and its place where they are.
pub proof fn law_a_step_leaves_the_task_in_its_place(a: TaskRun, b: TaskRun)
    requires
        same_place(a, b),
    ensures
        a.task_id == b.task_id,
        a.agent == b.agent,
        a.max_windows == b.max_windows,
        a.max_turns == b.max_turns,
        a.turn == b.turn,
{
}

/// A program that is held back is reported by the fingerprint of what it came to,
/// in the journal and to whoever watches.
pub proof fn law_a_program_held_back_is_reported_by_its_fingerprint(
    run: TaskRun,
    output: ModelOutput,
    effects: Seq<Effect>,
    step: Step,
    print: Seq<char>,
)
    requires
        run.answer_taken(output, false, effects, step),
        !(output is Text),
        blocked(run.repeat@, normalized(lowered(output)->0)),
        run.repeat@.fingerprint == Some(print),
    ensures
        effects[0] matches Effect::Journal(SessionEvent::RepeatedActionDetected {
            fingerprint: f,
            ..
        }) && f@ == print && effects[1] == Effect::Tell(
            AgentEvent::RepeatedActionDetected { fingerprint: f },
        ),
{
}

} // verus!
