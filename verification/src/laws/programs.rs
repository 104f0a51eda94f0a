//! What the calls of a program may do, and what is recorded of them.
use vstd::prelude::*;
use crate::checkpoint::Checkpoint;
use crate::engine::JS_INTERRUPT_COUNTER_INIT;
use crate::identity::{ResultId, RevisionId};
use crate::isolation::WorkspaceDelta;
use crate::json::{error_json, json_number, json_value, json_with_number};
use crate::ptc::calls::reported_error;
use crate::ptc::runtime::{action_of, changed, counts_process, delivered, effects_of, error_of, error_outcome, hash_of, ids_of, newest, outcome_of, polls_allowed, refusal_of, restore_by, revision_after, same_but_polls, same_but_processes, same_but_trace, source_of, timed, tracks, Action, CallReport, EffectKind, ExecState, HostCallOutcome, OpenCall, PtcEvent, PtcEventSink, PtcEventSinkError, PtcExecution, Trace};
use crate::session::RevisionSource;
use crate::text::{contains, views};

verus! {

proof fn lemma_names()
    ensures
        "read"@ != "write"@,
        "read"@ != "edit"@,
        "read"@ != "exec"@,
        "read"@ != "glob"@,
        "read"@ != "grep"@,
        "glob"@ != "write"@,
        "glob"@ != "edit"@,
        "glob"@ != "exec"@,
        "glob"@ != "grep"@,
        "grep"@ != "write"@,
        "grep"@ != "edit"@,
        "grep"@ != "exec"@,
        "write"@ != "edit"@,
        "write"@ != "exec"@,
        "edit"@ != "exec"@,
        "checkpoint"@ != "read"@,
        "checkpoint"@ != "glob"@,
        "checkpoint"@ != "grep"@,
        "checkpoint"@ != "exec"@,
        "checkpoint"@ != "write"@,
        "checkpoint"@ != "edit"@,
        "restore"@ != "read"@,
        "restore"@ != "glob"@,
        "restore"@ != "grep"@,
        "restore"@ != "exec"@,
        "restore"@ != "write"@,
        "restore"@ != "edit"@,
        "restore"@ != "checkpoint"@,
{
    reveal_strlit("read");
    reveal_strlit("glob");
    reveal_strlit("grep");
    reveal_strlit("exec");
    reveal_strlit("write");
    reveal_strlit("edit");
    reveal_strlit("checkpoint");
    reveal_strlit("restore");
    assert("read"@[0] == 'r' && "glob"@[0] == 'g' && "grep"@[0] == 'g' && "exec"@[0] == 'e'
        && "write"@[0] == 'w' && "edit"@[0] == 'e' && "checkpoint"@[0] == 'c' && "restore"@[0]
        == 'r');
    assert("glob"@[1] == 'l' && "grep"@[1] == 'r' && "exec"@[1] == 'x' && "edit"@[1] == 'd');
    assert("read"@.len() == 4 && "restore"@.len() == 7);
}

/// Tools that look are known to read, those that write to edit, and a command to
/// be a process; whatever may move the workspace is watched for it.
pub proof fn law_tools_have_their_effects(name: Seq<char>)
    ensures
        effects_of("read"@) == EffectKind::Read,
        effects_of("glob"@) == EffectKind::Read,
        effects_of("grep"@) == EffectKind::Read,
        effects_of("write"@) == EffectKind::Edit,
        effects_of("edit"@) == EffectKind::Edit,
        effects_of("exec"@) == EffectKind::Process,
        effects_of("checkpoint"@) == EffectKind::Meta,
        effects_of("restore"@) == EffectKind::Meta,
        tracks("write"@) && tracks("edit"@) && tracks("exec"@) && tracks("restore"@),
        effects_of(name) == EffectKind::Read ==> !tracks(name),
        effects_of(name) == EffectKind::Edit || effects_of(name) == EffectKind::Process ==> tracks(
            name,
        ),
        !tracks("read"@) && !tracks("glob"@) && !tracks("grep"@) && !tracks("checkpoint"@),
{
    lemma_names();
}

/// A call within the budgets is not refused. One over the budget of calls is, and
/// so is a command over the budget of processes, and any call once nothing can be
/// recorded any more.
pub proof fn law_calls_are_refused_over_budget(
    state: ExecState,
    name: Seq<char>,
    sink_failed: bool,
    counted: bool,
)
    requires
        state.tool_calls < u64::MAX,
        state.process_calls < u64::MAX,
    ensures
        refusal_of(state, name, sink_failed, counted) is None <==> (counted ==> state.tool_calls
            < state.max_tool_calls) && !sink_failed && (name == "exec"@ ==> state.process_calls
            < state.max_processes),
        counted && state.tool_calls >= state.max_tool_calls ==> refusal_of(
            state,
            name,
            sink_failed,
            counted,
        ) == Some("tool call budget exceeded"@),
        counts_process(state, name, sink_failed, counted) <==> name == "exec"@ && !sink_failed && (
        counted ==> state.tool_calls < state.max_tool_calls),
{
}

/// A call that is not refused is carried out: each tool does what it is named for,
/// and what writes is carried out where writing is allowed. A tool that does not
/// exist is answered with an error.
pub proof fn law_a_permitted_call_is_carried_out(
    checkpoints: Seq<Checkpoint>,
    name: Seq<char>,
    args: Seq<char>,
    can_write: bool,
)
    ensures
        action_of(checkpoints, None, "read"@, args, can_write, false) == Action::Read,
        action_of(checkpoints, None, "glob"@, args, can_write, false) == Action::Glob,
        action_of(checkpoints, None, "grep"@, args, can_write, false) == Action::Grep,
        action_of(checkpoints, None, "exec"@, args, can_write, false) == Action::Exec,
        action_of(checkpoints, None, "write"@, args, true, false) == Action::Write,
        action_of(checkpoints, None, "edit"@, args, true, false) == Action::Edit,
        action_of(checkpoints, None, "checkpoint"@, args, true, false) == Action::Checkpoint,
        action_of(checkpoints, None, "write"@, args, false, false) == Action::Answer(
            error_json("write: disabled by policy"@),
        ),
        action_of(checkpoints, None, "restore"@, args, true, false) == restore_by(
            checkpoints,
            json_number(args, "/id"@),
            crate::json::json_string(args, "/revision"@),
        ),
        !tracks(name) && effects_of(name) == EffectKind::Meta && name != "checkpoint"@ ==>
            action_of(checkpoints, None, name, args, can_write, false) == Action::Answer(
            error_json("unknown tool: "@ + name),
        ),
{
    lemma_names();
}

/// A call that is refused or cancelled is answered with why, and a refusal comes
/// before the cancellation.
pub proof fn law_a_refusal_is_the_answer(
    checkpoints: Seq<Checkpoint>,
    why: Seq<char>,
    name: Seq<char>,
    args: Seq<char>,
    can_write: bool,
    cancelled: bool,
)
    ensures
        action_of(checkpoints, Some(why), name, args, can_write, cancelled) == Action::Answer(
            error_json(why),
        ),
        action_of(checkpoints, None, name, args, can_write, true) == Action::Answer(
            error_json("cancelled"@),
        ),
{
}

/// A handle that was not handed out restores nothing.
pub proof fn law_only_known_handles_restore(
    checkpoints: Seq<Checkpoint>,
    id: Option<u64>,
    revision: Option<Seq<char>>,
)
    ensures
        restore_by(checkpoints, id, revision) matches Action::Restore(c) ==> checkpoints.contains(c)
            && id == Some(c.id.0) && revision == Some(c.revision.0@),
        id is None ==> restore_by(checkpoints, id, revision) is Answer,
        restore_by(checkpoints, id, revision) is Restore || restore_by(
            checkpoints,
            id,
            revision,
        ) is Answer,
{
    match id {
        Some(id) => lemma_newest_held(checkpoints, id),
        None => {},
    }
}

proof fn lemma_newest_held(checkpoints: Seq<Checkpoint>, id: u64)
    ensures
        newest(checkpoints, id) matches Some(c) ==> checkpoints.contains(c) && c.id.0 == id,
    decreases checkpoints.len(),
{
    if checkpoints.len() > 0 {
        lemma_newest_held(checkpoints.drop_last(), id);
        assert(checkpoints.last() == checkpoints[checkpoints.len() - 1]);
        match newest(checkpoints.drop_last(), id) {
            Some(c) => {
                let init = checkpoints.drop_last();
                let i = choose|i: int| 0 <= i < init.len() && init[i] == c;
                assert(checkpoints[i] == c);
            },
            None => {},
        }
    }
}

/// A command that ran is answered with how long it took; every other output, and
/// every error, is handed on as it is.
pub proof fn law_only_a_command_is_timed(name: Seq<char>, output: Seq<char>, duration_ms: u64)
    ensures
        name != "exec"@ ==> timed(name, output, duration_ms) == output,
        json_value(output, "/error"@) is Some ==> timed(name, output, duration_ms) == output,
        name == "exec"@ && json_value(output, "/error"@) is None && json_with_number(
            output,
            "durationMs"@,
            duration_ms,
        ) is Some ==> Some(timed(name, output, duration_ms)) == json_with_number(
            output,
            "durationMs"@,
            duration_ms,
        ),
{
}

/// A watched call that moved the workspace is recorded as moving it, from where it
/// stood to where it stands now, with every path that it added, modified or
/// deleted; then the call itself is recorded with those paths.
pub proof fn law_a_change_of_the_workspace_is_recorded(
    report: CallReport,
    execution: PtcExecution,
    call: OpenCall,
    name: Seq<char>,
    before: RevisionId,
    now: RevisionId,
    delta: WorkspaceDelta,
)
    requires
        tracks(name),
        report.before == Some(before),
        report.restored == Some(now) || (report.restored is None && report.current == Some(now)),
        before.0@ != now.0@,
        report.delta == Some(delta),
    ensures
        ({
            let all = report.entries(execution, call, name);
            &&& all.len() == 2
            &&& all[0] == (Trace::RevisionChanged {
                task_id: execution.task_id,
                execution_id: execution.execution_id,
                from: before.0@,
                to: now.0@,
                added: views(delta.added@),
                modified: views(delta.modified@),
                deleted: views(delta.deleted@),
                source: source_of(name),
            })
            &&& all[1] matches Trace::Completed { effects, paths, .. }
            &&& effects.mutates_workspace
            &&& paths == views(delta.added@) + views(delta.modified@) + views(delta.deleted@)
        }),
{
}

/// A call that left the workspace where it stood is not recorded as moving it.
pub proof fn law_a_call_that_changes_nothing_moves_nothing(
    report: CallReport,
    execution: PtcExecution,
    call: OpenCall,
    name: Seq<char>,
)
    requires
        !tracks(name) || report.before is None || (match (
            report.before,
            report.restored,
            report.current,
        ) {
            (Some(before), Some(now), _) => before.0@ == now.0@,
            (Some(before), None, Some(now)) => before.0@ == now.0@,
            _ => true,
        }),
    ensures
        ({
            let all = report.entries(execution, call, name);
            &&& all.len() == 1
            &&& all[0] matches Trace::Completed { effects, paths, .. }
            &&& !effects.mutates_workspace
            &&& paths.len() == 0
        }),
{
}

/// The end of every call is recorded under its own number and name, with its
/// duration, with what it came to, and with the results that it left.
pub proof fn law_every_call_is_recorded(
    report: CallReport,
    execution: PtcExecution,
    call: OpenCall,
    name: Seq<char>,
)
    ensures
        report.entries(execution, call, name).last() matches Trace::Completed {
            task_id,
            execution_id,
            call_id,
            name: called,
            args_hash,
            effects,
            outcome,
            ok,
            duration_ms,
            result_ids,
            ..
        } && task_id == execution.task_id && execution_id == execution.execution_id && call_id
            == call.call_id && called == name && args_hash == call.args_hash && effects.kind
            == effects_of(name) && duration_ms == report.duration_ms && outcome == outcome_of(
            timed(name, report.output.text@, report.duration_ms),
        ) && (ok <==> outcome == HostCallOutcome::Succeeded) && result_ids == ids_of(
            timed(name, report.output.text@, report.duration_ms),
        ),
{
}

/// A call succeeded where it reports no error; one that was cancelled or went over
/// its budget is told from other failures.
pub proof fn law_a_call_succeeds_where_it_reports_no_error(output: Seq<char>, error: Seq<char>)
    ensures
        json_value(output, "/error"@) is None <==> outcome_of(output) == HostCallOutcome::Succeeded,
        json_value(output, "/error"@) is Some && reported_error(output) == Some(error)
            ==> outcome_of(output) == error_outcome(error),
        contains(error, "cancel"@) <==> error_outcome(error) == HostCallOutcome::Cancelled,
        contains(error, "budget exceeded"@) && !contains(error, "cancel"@) <==> error_outcome(error)
            == HostCallOutcome::BudgetExceeded,
{
}

/// The results that a call left are those that its output names.
pub proof fn law_results_are_those_that_are_named(output: Seq<char>, n: u64)
    ensures
        json_number(output, "/stdoutId"@) == Some(n) || json_number(output, "/stderrId"@) == Some(
            n,
        ) || json_number(output, "/resultId"@) == Some(n) <==> ids_of(output).contains(
            ResultId(n),
        ),
{
    let a = crate::ptc::runtime::id_at(output, "/stdoutId"@);
    let b = crate::ptc::runtime::id_at(output, "/stderrId"@);
    let c = crate::ptc::runtime::id_at(output, "/resultId"@);
    crate::laws::completion::lemma_sum_contains(a, b);
    crate::laws::completion::lemma_sum_contains(a + b, c);
    if json_number(output, "/stdoutId"@) is Some {
        assert(a[0] == ResultId(json_number(output, "/stdoutId"@)->0));
    }
    if json_number(output, "/stderrId"@) is Some {
        assert(b[0] == ResultId(json_number(output, "/stderrId"@)->0));
    }
    if json_number(output, "/resultId"@) is Some {
        assert(c[0] == ResultId(json_number(output, "/resultId"@)->0));
    }
}

/// What moved the workspace is told apart: a command, a restore, or a tool.
pub proof fn law_changes_have_their_source(name: Seq<char>)
    ensures
        source_of("exec"@) == RevisionSource::Process,
        source_of("restore"@) == RevisionSource::Restore,
        source_of("write"@) == RevisionSource::Tool,
        source_of("edit"@) == RevisionSource::Tool,
        name != "exec"@ && name != "restore"@ ==> source_of(name) == RevisionSource::Tool,
{
    lemma_names();
}

/// The engine is polled often enough to stop a program soon after its limit, and
/// never before it; without a limit it is not stopped.
pub proof fn law_the_instruction_limit_is_kept(n: u64, state: ExecState)
    requires
        n <= u64::MAX - JS_INTERRUPT_COUNTER_INIT,
    ensures
        polls_allowed(None) is None,
        polls_allowed(Some(n)) matches Some(polls) && polls * JS_INTERRUPT_COUNTER_INIT >= n && (
        n > 0 ==> (polls - 1) * JS_INTERRUPT_COUNTER_INIT < n),
        state.max_interrupt_polls is None ==> !state.over_instructions(),
        state.max_interrupt_polls matches Some(max) ==> (state.over_instructions()
            <==> state.interrupt_polls > max),
{
    let c = JS_INTERRUPT_COUNTER_INIT as int;
    let q = (n + c - 1) / c;
    assert(c == 10000);
    assert(0 <= q <= n + c - 1);
    assert(q * 10000 >= n);
    assert(n > 0 ==> (q - 1) * 10000 < n);
}

/// The hash of the arguments takes every byte into account, in order.
pub proof fn law_a_hash_takes_every_byte(bytes: Seq<u8>, byte: u8)
    ensures
        hash_of(Seq::empty()) == 14695981039346656037u64,
        hash_of(bytes.push(byte)) == (hash_of(bytes) ^ (byte as u64)).wrapping_mul(1099511628211),
{
    assert(bytes.push(byte).drop_last() =~= bytes);
}

/// What is recorded, polled or counted leaves the rest of a run as it is.
pub proof fn law_records_leave_the_rest(a: ExecState, b: ExecState)
    ensures
        same_but_trace(a, b) || same_but_polls(a, b) || same_but_processes(a, b) ==> a.execution
            == b.execution && a.current_revision == b.current_revision && a.tool_calls
            == b.tool_calls && a.next_call_id == b.next_call_id && a.checkpoints@ == b.checkpoints@
            && a.max_tool_calls == b.max_tool_calls && a.max_processes == b.max_processes
            && a.max_interrupt_polls == b.max_interrupt_polls,
        same_but_trace(a, b) ==> a.process_calls == b.process_calls && a.interrupt_polls
            == b.interrupt_polls,
        same_but_polls(a, b) ==> a.process_calls == b.process_calls && a.events@ == b.events@
            && a.sink_error == b.sink_error,
        same_but_processes(a, b) ==> a.interrupt_polls == b.interrupt_polls && a.events@
            == b.events@ && a.sink_error == b.sink_error,
{
}

/// The revision after a call is the one that was restored, where one was, and else
/// the one the workspace is found at; a call that is not watched has none.
pub proof fn law_the_revision_after_a_call(
    name: Seq<char>,
    before: RevisionId,
    restored: Option<RevisionId>,
    current: Option<RevisionId>,
)
    ensures
        tracks(name) && restored is Some ==> revision_after(name, Some(before), restored, current)
            == restored,
        tracks(name) && restored is None ==> revision_after(name, Some(before), restored, current)
            == current,
        !tracks(name) ==> revision_after(name, Some(before), restored, current) is None,
        current matches Some(now) ==> (changed(Some(before), Some(now)) <==> before.0@ != now.0@),
{
}

/// An event is handed to the sink where there is one and nothing has failed yet;
/// the first failure stands.
pub proof fn law_the_first_failure_of_a_sink_stands<S: PtcEventSink>(
    sink: Option<&S>,
    event: PtcEvent,
    before: Option<PtcEventSinkError>,
    after: Option<PtcEventSinkError>,
)
    requires
        delivered(sink, event, before, after),
    ensures
        before is Some ==> after == before,
        before is None && sink is None ==> after is None,
        before is None && sink is Some ==> match after {
            None => (sink->0).may_emit(event, Ok(())),
            Some(error) => (sink->0).may_emit(event, Err(error)),
        },
{
    if before is None && sink is Some {
        let answer = choose|answer: Result<(), PtcEventSinkError>| #[trigger]
            (sink->0).may_emit(event, answer) && after == error_of(answer);
        match answer {
            Ok(u) => {
                assert(u == ());
            },
            Err(_) => {},
        }
    }
}

} // verus!
