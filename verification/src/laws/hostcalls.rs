//! What each function that a program may call asks of the host.
use vstd::prelude::*;
use crate::identity::{AgentId, IsolatedWorkspaceId, ProcessId};
use crate::json::{error_json, json_array_len, json_number, json_value, quoted};
use crate::laws::texts::{lemma_in_sum, lemma_shows};
use crate::process::ProcessStream;
use crate::ptc::calls::{batch_safe, call_exception, named_error, never_started, not_batch_safe, planned, reported_error, shows_entry, tells_cancel, Argument, Call, Standing};
use crate::ptc::values::{value_json, Js, Scalar};
use crate::delegation::DelegateResult;
use crate::json::Json;
use crate::text::{contains, decimal, opt_view};

verus! {

proof fn lemma_call_names()
    ensures
        "tool"@.len() == 4,
        "tool"@[0] == 't',
        "read"@.len() == 4,
        "read"@[0] == 'r',
        "edit"@.len() == 4,
        "edit"@[0] == 'e',
        "edit"@[1] == 'd',
        "glob"@.len() == 4,
        "glob"@[0] == 'g',
        "glob"@[1] == 'l',
        "grep"@.len() == 4,
        "grep"@[0] == 'g',
        "grep"@[1] == 'r',
        "exec"@.len() == 4,
        "exec"@[0] == 'e',
        "exec"@[1] == 'x',
        "goal"@.len() == 4,
        "goal"@[0] == 'g',
        "goal"@[1] == 'o',
        "write"@.len() == 5,
        "write"@[0] == 'w',
        "batch"@.len() == 5,
        "batch"@[0] == 'b',
        "finish"@.len() == 6,
        "restore"@.len() == 7,
        "restore"@[0] == 'r',
        "discard"@.len() == 7,
        "discard"@[0] == 'd',
        "tr_read"@.len() == 7,
        "tr_read"@[0] == 't',
        "tr_read"@[3] == 'r',
        "tr_head"@.len() == 7,
        "tr_head"@[0] == 't',
        "tr_head"@[3] == 'h',
        "tr_tail"@.len() == 7,
        "tr_tail"@[0] == 't',
        "tr_tail"@[3] == 't',
        "tr_grep"@.len() == 7,
        "tr_grep"@[0] == 't',
        "tr_grep"@[3] == 'g',
        "tr_json"@.len() == 7,
        "tr_json"@[0] == 't',
        "tr_json"@[3] == 'j',
        "evidence"@.len() == 8,
        "evidence"@[0] == 'e',
        "delegate"@.len() == 8,
        "delegate"@[0] == 'd',
        "call_tool"@.len() == 9,
        "call_tool"@[0] == 'c',
        "integrate"@.len() == 9,
        "integrate"@[0] == 'i',
        "checkpoint"@.len() == 10,
        "checkpoint"@[0] == 'c',
        "agent_poll"@.len() == 10,
        "agent_poll"@[0] == 'a',
        "agent_poll"@[6] == 'p',
        "agent_join"@.len() == 10,
        "agent_join"@[0] == 'a',
        "agent_join"@[6] == 'j',
        "agent_send"@.len() == 10,
        "agent_send"@[0] == 'a',
        "agent_send"@[6] == 's',
        "agent_list"@.len() == 10,
        "agent_list"@[0] == 'a',
        "agent_list"@[6] == 'l',
        "agent_spawn"@.len() == 11,
        "agent_cancel"@.len() == 12,
        "agent_cancel"@[0] == 'a',
        "process_poll"@.len() == 12,
        "process_poll"@[0] == 'p',
        "process_poll"@[8] == 'p',
        "process_kill"@.len() == 12,
        "process_kill"@[0] == 'p',
        "process_kill"@[8] == 'k',
        "process_wait"@.len() == 12,
        "process_wait"@[0] == 'p',
        "process_wait"@[8] == 'w',
        "process_tail"@.len() == 12,
        "process_tail"@[0] == 'p',
        "process_tail"@[8] == 't',
        "process_list"@.len() == 12,
        "process_list"@[0] == 'p',
        "process_list"@[8] == 'l',
        "process_spawn"@.len() == 13,
        "process_spawn"@[8] == 's',
        "process_write"@.len() == 13,
        "process_write"@[8] == 'w',
        "delegate_batch"@.len() == 14,
{
    reveal_strlit("tool");
    reveal_strlit("read");
    reveal_strlit("edit");
    reveal_strlit("glob");
    reveal_strlit("grep");
    reveal_strlit("exec");
    reveal_strlit("goal");
    reveal_strlit("write");
    reveal_strlit("batch");
    reveal_strlit("finish");
    reveal_strlit("restore");
    reveal_strlit("discard");
    reveal_strlit("tr_read");
    reveal_strlit("tr_head");
    reveal_strlit("tr_tail");
    reveal_strlit("tr_grep");
    reveal_strlit("tr_json");
    reveal_strlit("evidence");
    reveal_strlit("delegate");
    reveal_strlit("call_tool");
    reveal_strlit("integrate");
    reveal_strlit("checkpoint");
    reveal_strlit("agent_poll");
    reveal_strlit("agent_join");
    reveal_strlit("agent_send");
    reveal_strlit("agent_list");
    reveal_strlit("agent_spawn");
    reveal_strlit("agent_cancel");
    reveal_strlit("process_poll");
    reveal_strlit("process_kill");
    reveal_strlit("process_wait");
    reveal_strlit("process_tail");
    reveal_strlit("process_list");
    reveal_strlit("process_spawn");
    reveal_strlit("process_write");
    reveal_strlit("delegate_batch");
}

/// A tool is called with what the program gave it.
pub proof fn law_tools_are_called_with_their_arguments(
    args: Seq<Argument>,
    at: Standing,
    a: Seq<char>,
    b: Seq<char>,
    path: String,
)
    requires
        args.len() > 0,
    ensures
        ({
            let max = at.max_output_bytes as nat;
            let first = value_json(args[0].value, max);
            &&& args[0].value == Js::Scalar(Scalar::Text(path)) ==> planned("read"@, args, at)
                == Ok::<Call, Seq<char>>(
                Call::Tool {
                    name: "read"@,
                    args: "{"@ + quoted("path"@) + ":"@ + quoted(path@) + "}"@,
                },
            )
            &&& opt_view(args[0].text) == Some(a) ==> planned("glob"@, args, at) == Ok::<
                Call,
                Seq<char>,
            >(
                Call::Tool {
                    name: "glob"@,
                    args: "{"@ + quoted("pattern"@) + ":"@ + quoted(a) + "}"@,
                },
            )
            &&& args.len() > 1 && opt_view(args[0].text) == Some(a) && opt_view(args[1].text)
                == Some(b) ==> planned("write"@, args, at) == Ok::<Call, Seq<char>>(
                Call::Tool {
                    name: "write"@,
                    args: "{\"content\":"@ + quoted(b) + ",\"path\":"@ + quoted(a) + "}"@,
                },
            )
            &&& planned("edit"@, args, at) == Ok::<Call, Seq<char>>(
                Call::Tool { name: "edit"@, args: first },
            )
            &&& planned("grep"@, args, at) == Ok::<Call, Seq<char>>(
                Call::Tool { name: "grep"@, args: first },
            )
            &&& planned("exec"@, args, at) == Ok::<Call, Seq<char>>(
                Call::Tool { name: "exec"@, args: first },
            )
            &&& planned("restore"@, args, at) == Ok::<Call, Seq<char>>(
                Call::Tool { name: "restore"@, args: first },
            )
            &&& planned("checkpoint"@, args, at) == Ok::<Call, Seq<char>>(
                Call::Tool { name: "checkpoint"@, args: "null"@ },
            )
            &&& args.len() > 1 && opt_view(args[0].text) == Some(a) ==> planned("tool"@, args, at)
                == Ok::<Call, Seq<char>>(
                Call::Tool { name: a, args: value_json(args[1].value, max) },
            ) && planned("call_tool"@, args, at) == planned("tool"@, args, at)
        }),
{
    lemma_call_names();
}

/// A batch calls the tool it names once for each element of the list, in order.
pub proof fn law_a_batch_calls_once_for_each_element(
    args: Seq<Argument>,
    at: Standing,
    tool: Seq<char>,
    n: usize,
    i: int,
)
    requires
        args.len() > 1,
        !at.cancelled,
        opt_view(args[0].text) == Some(tool),
        json_array_len(value_json(args[1].value, at.max_output_bytes as nat), ""@) == Some(n),
        0 <= i < n,
    ensures
        planned("batch"@, args, at) matches Ok(Call::Batch { tool: called, items }) && called
            == tool && items.len() == n && (json_value(
            value_json(args[1].value, at.max_output_bytes as nat),
            "/"@ + decimal(i as nat),
        ) matches Some(item) ==> items[i] == item),
{
    lemma_call_names();
}

/// With a host, what a program asks of the runtime reaches it as it was asked.
pub proof fn law_the_runtime_is_asked_what_the_program_asked(
    args: Seq<Argument>,
    at: Standing,
    n: u64,
    message: Seq<char>,
)
    requires
        at.has_host,
        args.len() > 0,
    ensures
        ({
            let first = value_json(args[0].value, at.max_output_bytes as nat);
            &&& planned("goal"@, args, at) == Ok::<Call, Seq<char>>(Call::Goal(first))
            &&& planned("finish"@, args, at) == Ok::<Call, Seq<char>>(Call::Finish(Some(first)))
            &&& planned("finish"@, Seq::empty(), at) == Ok::<Call, Seq<char>>(Call::Finish(None))
            &&& planned("agent_spawn"@, args, at) == Ok::<Call, Seq<char>>(Call::AgentSpawn(first))
            &&& planned("delegate"@, args, at) == Ok::<Call, Seq<char>>(Call::Delegate(first))
            &&& planned("delegate_batch"@, args, at) == Ok::<Call, Seq<char>>(
                Call::DelegateBatch(first),
            )
            &&& planned("agent_list"@, args, at) == Ok::<Call, Seq<char>>(Call::AgentList)
            &&& json_number(first, ""@) == Some(n) || (json_number(first, ""@) is None
                && json_number(first, "/agent"@) == Some(n)) ==> {
                &&& planned("agent_poll"@, args, at) == Ok::<Call, Seq<char>>(
                    Call::AgentPoll(AgentId(n)),
                )
                &&& planned("agent_cancel"@, args, at) == Ok::<Call, Seq<char>>(
                    Call::AgentCancel(AgentId(n)),
                )
                &&& planned("agent_join"@, args, at) == Ok::<Call, Seq<char>>(
                    Call::AgentJoin(AgentId(n)),
                )
                &&& args.len() > 1 && opt_view(args[1].text) == Some(message) ==> planned(
                    "agent_send"@,
                    args,
                    at,
                ) == Ok::<Call, Seq<char>>(Call::AgentSend(AgentId(n), message))
            }
        }),
{
    lemma_call_names();
}

/// With a host, a process is started, watched, fed and ended by its number.
pub proof fn law_processes_are_reached_by_their_number(
    args: Seq<Argument>,
    at: Standing,
    n: u64,
    data: Seq<char>,
)
    requires
        at.has_host,
        args.len() > 0,
        json_number(value_json(args[0].value, at.max_output_bytes as nat), ""@) == Some(n) || (
        json_number(value_json(args[0].value, at.max_output_bytes as nat), ""@) is None
            && json_number(value_json(args[0].value, at.max_output_bytes as nat), "/id"@)
            == Some(n)),
    ensures
        planned("process_spawn"@, args, at) == Ok::<Call, Seq<char>>(
            Call::ProcessSpawn(value_json(args[0].value, at.max_output_bytes as nat)),
        ),
        planned("process_list"@, args, at) == Ok::<Call, Seq<char>>(Call::ProcessList),
        planned("process_poll"@, args, at) == Ok::<Call, Seq<char>>(Call::ProcessPoll(ProcessId(n))),
        planned("process_kill"@, args, at) == Ok::<Call, Seq<char>>(Call::ProcessKill(ProcessId(n))),
        args.len() > 1 && (args[1].number matches Some(ms) && ms >= 0) ==> planned(
            "process_wait"@,
            args,
            at,
        ) == Ok::<Call, Seq<char>>(
            Call::ProcessWait(ProcessId(n), Some(args[1].number->0 as u64)),
        ),
        args.len() == 1 ==> planned("process_wait"@, args, at) == Ok::<Call, Seq<char>>(
            Call::ProcessWait(ProcessId(n), None),
        ),
        args.len() == 1 ==> planned("process_tail"@, args, at) == Ok::<Call, Seq<char>>(
            Call::ProcessTail(ProcessId(n), ProcessStream::Stdout, 100),
        ),
        args.len() > 2 && opt_view(args[1].text) == Some("stderr"@) && (args[2].number matches Some(
            k,
        ) && 0 <= k <= usize::MAX) ==> planned("process_tail"@, args, at) == Ok::<Call, Seq<char>>(
            Call::ProcessTail(
                ProcessId(n),
                ProcessStream::Stderr,
                args[2].number->0 as usize,
            ),
        ),
        args.len() > 2 && opt_view(args[1].text) == Some("stdout"@) && (args[2].number matches Some(
            k,
        ) && 0 <= k <= usize::MAX) ==> planned("process_tail"@, args, at) == Ok::<Call, Seq<char>>(
            Call::ProcessTail(
                ProcessId(n),
                ProcessStream::Stdout,
                args[2].number->0 as usize,
            ),
        ),
        args.len() > 1 && opt_view(args[1].text) == Some(data) ==> planned(
            "process_write"@,
            args,
            at,
        ) == Ok::<Call, Seq<char>>(Call::ProcessWrite(ProcessId(n), data)),
{
    lemma_call_names();
    reveal_strlit("stdout");
    reveal_strlit("stderr");
    assert("stdout"@[3] == 'o');
    assert("stderr"@[3] == 'e');
}

/// With a host, a workspace is integrated or discarded by its number; a
/// verification is recorded with its kind and its outcome.
pub proof fn law_workspaces_and_verifications_are_recorded(
    args: Seq<Argument>,
    at: Standing,
    n: u64,
    said: Seq<char>,
    ok: bool,
)
    requires
        at.has_host,
        args.len() > 1,
        opt_view(args[1].text) == Some(said),
    ensures
        json_number(value_json(args[0].value, at.max_output_bytes as nat), "/id"@) == Some(n) || (
        json_number(value_json(args[0].value, at.max_output_bytes as nat), "/id"@) is None
            && json_number(value_json(args[0].value, at.max_output_bytes as nat), ""@) == Some(n))
            ==> planned("integrate"@, args, at) == Ok::<Call, Seq<char>>(
            Call::Integrate(IsolatedWorkspaceId(n)),
        ) && planned("discard"@, args, at) == Ok::<Call, Seq<char>>(
            Call::Discard(IsolatedWorkspaceId(n), said),
        ),
        args[0].text is Some && args[1].value == Js::Scalar(Scalar::Bool(ok)) && args.len() == 2
            ==> planned("evidence"@, args, at) == Ok::<Call, Seq<char>>(
            Call::Evidence(args[0].text->0@, ok, "null"@),
        ),
        args[0].text is Some && args[1].value == Js::Scalar(Scalar::Bool(ok)) && args.len() > 2
            ==> planned("evidence"@, args, at) == Ok::<Call, Seq<char>>(
            Call::Evidence(
                args[0].text->0@,
                ok,
                value_json(args[2].value, at.max_output_bytes as nat),
            ),
        ),
{
    lemma_call_names();
}

/// A handle reads the result that it is of: from where and as far as it is asked,
/// from the start, from the end, or what matches.
pub proof fn law_a_handle_reads_its_own_result(
    args: Seq<Argument>,
    at: Standing,
    id: i64,
    pattern: Seq<char>,
)
    requires
        at.receiver == Some(id),
        id >= 0,
    ensures
        planned("tr_json"@, args, at) == Ok::<Call, Seq<char>>(Call::HandleJson(id as u64)),
        args.len() == 0 ==> planned("tr_read"@, args, at) == Ok::<Call, Seq<char>>(
            Call::HandleRead(id as u64, 0, 200),
        ),
        args.len() == 0 ==> planned("tr_head"@, args, at) == Ok::<Call, Seq<char>>(
            Call::HandleRead(id as u64, 0, 50),
        ),
        args.len() == 0 ==> planned("tr_tail"@, args, at) == Ok::<Call, Seq<char>>(
            Call::HandleTail(id as u64, 50),
        ),
        args.len() > 0 && args[0].number is Some ==> planned("tr_tail"@, args, at) == Ok::<
            Call,
            Seq<char>,
        >(Call::HandleTail(id as u64, args[0].number->0 as usize)) && planned("tr_head"@, args, at)
            == Ok::<Call, Seq<char>>(
            Call::HandleRead(id as u64, 0, args[0].number->0 as usize),
        ),
        args.len() > 1 && args[0].number is Some && args[1].number is Some ==> planned(
            "tr_read"@,
            args,
            at,
        ) == Ok::<Call, Seq<char>>(
            Call::HandleRead(
                id as u64,
                args[0].number->0 as usize,
                args[1].number->0 as usize,
            ),
        ),
        args.len() == 1 && opt_view(args[0].text) == Some(pattern) ==> planned("tr_grep"@, args, at)
            == Ok::<Call, Seq<char>>(Call::HandleGrep(id as u64, pattern, 100)),
{
    lemma_call_names();
}

/// A call that lacks what it needs is refused, and so is a function that does not
/// exist.
pub proof fn law_a_call_without_its_arguments_is_refused(name: Seq<char>, at: Standing)
    requires
        name == "read"@ || name == "write"@ || name == "edit"@ || name == "glob"@ || name
            == "grep"@ || name == "exec"@ || name == "restore"@ || name == "tool"@ || name
            == "batch"@ || name == "goal"@ || name == "agent_spawn"@ || name == "agent_poll"@
            || name == "agent_cancel"@ || name == "agent_join"@ || name == "agent_send"@ || name
            == "delegate"@ || name == "delegate_batch"@ || name == "process_spawn"@ || name
            == "process_poll"@ || name == "process_kill"@ || name == "process_wait"@ || name
            == "process_tail"@ || name == "process_write"@ || name == "integrate"@ || name
            == "discard"@ || name == "evidence"@,
    ensures
        planned(name, Seq::empty(), at) is Err,
{
    lemma_call_names();
}

/// A call ends the program where it went over a budget or was cancelled; any other
/// error is a value that the program can act on.
pub proof fn law_only_budgets_and_cancellation_are_thrown(output: Seq<char>, error: Seq<char>)
    ensures
        reported_error(output) is None ==> call_exception(output) is None,
        reported_error(output) == Some(error) ==> (call_exception(output) == Some(error)
            <==> contains(error, "budget exceeded"@) || contains(error, "cancelled"@)),
        reported_error(output) == Some(error) && !contains(error, "budget exceeded"@) && !contains(
            error,
            "cancelled"@,
        ) ==> call_exception(output) is None,
{
}

/// Only tools that leave the workspace alone, and commands, run in a batch.
pub proof fn law_what_writes_does_not_run_in_a_batch(name: Seq<char>)
    ensures
        batch_safe("read"@) && batch_safe("grep"@) && batch_safe("glob"@) && batch_safe("exec"@),
        !batch_safe("write"@) && !batch_safe("edit"@) && !batch_safe("restore"@) && !batch_safe(
            "checkpoint"@,
        ),
        batch_safe(name) ==> name == "read"@ || name == "grep"@ || name == "glob"@ || name
            == "exec"@,
        not_batch_safe(name) == error_json("tool '"@ + name + "' is not batch-safe"@),
{
    lemma_call_names();
}

/// An error that is named keeps all that it said; an entry of a batch whose worker
/// did not start keeps all but its summary.
pub proof fn law_a_named_error_keeps_what_it_said(
    name: Seq<char>,
    error: Seq<char>,
    entry: DelegateResult,
    shown: DelegateResult,
    output: Json,
)
    ensures
        contains(named_error(name, error), error),
        contains(named_error(name, error), name),
        shows_entry(name, entry, shown) ==> shown.task_id == entry.task_id && shown.agent
            == entry.agent && shown.ok == entry.ok && shown.workspace == entry.workspace
            && contains(shown.summary@, entry.summary@),
        shows_entry(name, entry, shown) && (entry.task_id.0 != 0 || entry.agent.0 != 0) ==> shown
            == entry,
        never_started(entry) <==> entry.task_id.0 == 0 && entry.agent.0 == 0,
        tells_cancel(output) <==> (reported_error(output.text@) matches Some(e) && contains(
            e,
            "cancel"@,
        )),
{
    lemma_named(name, error);
    lemma_named(name, entry.summary@);
    lemma_in_sum(entry.summary@, entry.summary@);
}

proof fn lemma_named(name: Seq<char>, error: Seq<char>)
    ensures
        contains(named_error(name, error), error),
        contains(named_error(name, error), name),
{
    lemma_in_sum(error, error);
    lemma_in_sum(name, ": "@);
    lemma_in_sum(name + ": "@, error);
    lemma_shows(name + ": "@ + error, name + ": "@, name);
    if crate::text::has_prefix(error, name) {
        assert(crate::text::occurs_at(error, name, 0));
    }
}

} // verus!
