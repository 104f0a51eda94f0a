//! How a run goes from its first stage to its result, and what of its values
//! reaches the program and the journal.
use vstd::prelude::*;
use vstd::string::StringExecFns;
use crate::engine::VmError;
use crate::identity::{copy_prelude, ExecutionId, PreludeId, ResultId, RevisionId, TaskId};
use crate::json::{array_len_at, bool_at, json_array_len, json_bool, json_keys, json_number, json_signed, json_string, json_value, keys_at, number_at, signed_at, string_at, value_at, Json};
use crate::ptc::calls::{batch_call, handle_call, json_texts, process_call, record_call, tool_call, worker_call, Argument, Standing};
use crate::ptc::diagnostics::{classify_diagnostic, diagnostic, hint_of, kind_of, nth, numbers_of, pieces, PtcDiagnostic, PtcDiagnosticKind, RunFacts};
use crate::ptc::runtime::{ExecState, Outcome, PtcEvent, PtcExecution, PtcOutcome};
use crate::session::EvidenceRecord;
use crate::text::{decimal, opt_view, size_text, same, text, to_chars, views};

verus! {

/// The names under which a program reaches the host.
pub open spec fn global_names() -> Seq<Seq<char>> {
    seq![
        "tool"@,
        "call_tool"@,
        "read"@,
        "write"@,
        "edit"@,
        "glob"@,
        "grep"@,
        "exec"@,
        "batch"@,
        "evidence"@,
        "checkpoint"@,
        "restore"@,
        "goal"@,
        "finish"@,
        "agent_spawn"@,
        "agent_poll"@,
        "agent_join"@,
        "agent_cancel"@,
        "agent_send"@,
        "agent_list"@,
        "delegate"@,
        "delegate_batch"@,
        "integrate"@,
        "discard"@,
        "process_spawn"@,
        "process_poll"@,
        "process_tail"@,
        "process_wait"@,
        "process_kill"@,
        "process_write"@,
        "process_list"@,
    ]
}

/// The texts of string slices.
pub open spec fn str_views(items: Seq<&'static str>) -> Seq<Seq<char>> {
    items.map_values(|s: &'static str| s@)
}

/// The names under which a program reaches the host, each both as a global and
/// as a member of `tools`.
pub fn host_globals() -> (r: Vec<&'static str>)
    ensures
        str_views(r@) == global_names(),
{
    let r: Vec<&'static str> = vec![
        "tool",
        "call_tool",
        "read",
        "write",
        "edit",
        "glob",
        "grep",
        "exec",
        "batch",
        "evidence",
        "checkpoint",
        "restore",
        "goal",
        "finish",
        "agent_spawn",
        "agent_poll",
        "agent_join",
        "agent_cancel",
        "agent_send",
        "agent_list",
        "delegate",
        "delegate_batch",
        "integrate",
        "discard",
        "process_spawn",
        "process_poll",
        "process_tail",
        "process_wait",
        "process_kill",
        "process_write",
        "process_list",
    ];
    proof {
        assert(str_views(r@) =~= global_names());
    }
    r
}

/// Every name that a program is given is understood when it is called.
pub proof fn law_every_global_is_understood(i: int, args: Seq<Argument>, at: Standing)
    requires
        0 <= i < global_names().len(),
    ensures
        ({
            let name = global_names()[i];
            let max = at.max_output_bytes as nat;
            ||| tool_call(name, args, max) is Some
            ||| batch_call(name, args, at.cancelled, max) is Some
            ||| worker_call(name, args, at.has_host, max) is Some
            ||| process_call(name, args, at.has_host, max) is Some
            ||| record_call(name, args, at.has_host, max) is Some
        }),
{
}

/// The stages of a run before its result.
#[derive(Clone, Copy, Debug, PartialEq, Eq, Structural)]
pub enum Stage {
    /// The host's names are installed.
    Install,
    /// The prelude is evaluated.
    Prelude,
    /// The host's names are installed again, so that a prelude replaces none.
    Reinstall,
    /// The program is evaluated.
    Program,
}

/// What a run ended in.
#[derive(Debug, PartialEq, Eq)]
pub struct Ending {
    pub value: Json,
    pub outcome: PtcOutcome,
    pub diagnostic: Option<PtcDiagnostic>,
}

/// What follows a stage.
#[derive(Debug, PartialEq, Eq)]
pub enum Next {
    Go(Stage),
    End(Ending),
}

/// The stage after one that succeeded; nothing follows the program.
pub open spec fn stage_after(stage: Stage, has_prelude: bool) -> Option<Stage> {
    match stage {
        Stage::Install => if has_prelude {
            Some(Stage::Prelude)
        } else {
            Some(Stage::Program)
        },
        Stage::Prelude => Some(Stage::Reinstall),
        Stage::Reinstall => Some(Stage::Program),
        Stage::Program => None,
    }
}

/// The program runs only right after the host's names were installed: what a
/// prelude did to them is undone before the program sees them.
pub proof fn law_the_program_sees_the_host_names(stage: Stage, has_prelude: bool)
    ensures
        stage_after(stage, has_prelude) == Some(Stage::Program) ==> stage is Install
            || stage is Reinstall,
        has_prelude ==> stage_after(Stage::Install, has_prelude) == Some(Stage::Prelude)
            && stage_after(Stage::Prelude, has_prelude) == Some(Stage::Reinstall),
{
}

/// Whether an ending is that of a stage before the program that failed.
pub open spec fn is_setup_failure(e: Ending, message: Seq<char>) -> bool {
    &&& e.value.text@ == "null"@
    &&& e.outcome@ == Outcome::Failed(message)
    &&& e.diagnostic matches Some(d)
    &&& d.kind is Runtime
    &&& d.message@ == message
    &&& d.line is None
    &&& d.column is None
    &&& d.hint is None
}

/// The message of a stage before the program that failed. A broken prelude is
/// named: it is the operator's error, not the model's.
pub open spec fn setup_message(stage: Stage, eval_name: Seq<char>, error: VmError) -> Seq<char> {
    if stage is Prelude {
        eval_name + ": "@ + error.text()
    } else {
        error.text()
    }
}

/// What follows a stage before the program.
pub fn after_setup(stage: Stage, has_prelude: bool, eval_name: &str, failure: Option<VmError>) -> (r:
    Next)
    requires
        !(stage is Program),
    ensures
        match failure {
            None => r matches Next::Go(next) && stage_after(stage, has_prelude) == Some(next),
            Some(error) => r matches Next::End(e) && is_setup_failure(
                e,
                setup_message(stage, eval_name@, error),
            ),
        },
{
    match failure {
        None => match stage {
            Stage::Install => if has_prelude {
                Next::Go(Stage::Prelude)
            } else {
                Next::Go(Stage::Program)
            },
            Stage::Prelude => Next::Go(Stage::Reinstall),
            _ => Next::Go(Stage::Program),
        },
        Some(error) => {
            let message = match stage {
                Stage::Prelude => {
                    let mut s = text(eval_name);
                    s.append(": ");
                    s.append(error.message().as_str());
                    s
                },
                _ => error.message(),
            };
            Next::End(
                Ending {
                    value: Json::null(),
                    outcome: PtcOutcome::Failed(message.clone()),
                    diagnostic: Some(diagnostic(PtcDiagnosticKind::Runtime, message)),
                },
            )
        },
    }
}

/// The program as it is evaluated: as the body of a function, so that it may
/// return.
pub fn wrapped(program: &str) -> (r: String)
    ensures
        r@ == "(function() {\n"@ + program@ + "\n})()"@,
{
    let mut s = text("(function() {\n");
    s.append(program);
    s.append("\n})()");
    s
}

/// The outcome of a program that threw, by the kind of its failure.
pub open spec fn thrown_outcome(kind: PtcDiagnosticKind, message: Seq<char>) -> Outcome {
    match kind {
        PtcDiagnosticKind::Cancelled => Outcome::Interrupted,
        PtcDiagnosticKind::WallTime => Outcome::BudgetExceeded("wall time"@),
        PtcDiagnosticKind::InstructionBudget => Outcome::BudgetExceeded("instruction limit"@),
        _ => Outcome::Failed(message),
    }
}

/// What a run ends in when its program was evaluated: in the value it returned;
/// in a failure classified by what is known of the run and by the message, where
/// it threw; in the engine's failure else.
pub fn after_program(program: &str, result: Result<Json, VmError>, facts: RunFacts) -> (r: Ending)
    ensures
        match result {
            Ok(value) => r.value == value && r.outcome@ is Completed && r.diagnostic is None,
            Err(VmError::Exception(message)) => {
                &&& r.diagnostic matches Some(d)
                &&& d.kind == kind_of(program@, message@, facts)
                &&& d.message@ == message@
                &&& d.line == nth(numbers_of(pieces(message@, true)), 0)
                &&& d.column == nth(numbers_of(pieces(message@, true)), 1)
                &&& opt_view(d.hint) == hint_of(d.kind)
                &&& r.value.text@ == d.json()
                &&& r.outcome@ == thrown_outcome(d.kind, message@)
            },
            Err(error) => {
                &&& r.diagnostic matches Some(d)
                &&& d.kind is Runtime
                &&& d.message@ == error.text()
                &&& d.line is None
                &&& d.column is None
                &&& d.hint is None
                &&& r.value.text@ == d.json()
                &&& r.outcome@ == Outcome::Failed(error.text())
            },
        },
{
    match result {
        Ok(value) => Ending { value, outcome: PtcOutcome::Completed, diagnostic: None },
        Err(VmError::Exception(message)) => {
            let d = classify_diagnostic(program, message.as_str(), facts);
            let outcome = match d.kind {
                PtcDiagnosticKind::Cancelled => PtcOutcome::Interrupted,
                PtcDiagnosticKind::WallTime => PtcOutcome::BudgetExceeded("wall time"),
                PtcDiagnosticKind::InstructionBudget => PtcOutcome::BudgetExceeded(
                    "instruction limit",
                ),
                _ => PtcOutcome::Failed(message),
            };
            Ending { value: d.to_json(), outcome, diagnostic: Some(d) }
        },
        Err(error) => {
            let message = error.message();
            let d = diagnostic(PtcDiagnosticKind::Runtime, message.clone());
            Ending {
                value: d.to_json(),
                outcome: PtcOutcome::Failed(message),
                diagnostic: Some(d),
            }
        },
    }
}

/// The result of a run.
#[derive(Debug, PartialEq, Eq)]
pub struct PtcResult {
    pub value: Json,
    pub outcome: PtcOutcome,
    pub task_id: TaskId,
    pub execution_id: ExecutionId,
    pub start_revision: RevisionId,
    pub end_revision: RevisionId,
    pub tool_calls: usize,
    pub duration_ms: u64,
    pub events: Vec<PtcEvent>,
    pub diagnostic: Option<PtcDiagnostic>,
}

/// The result of a run whose machine could not be made.
pub fn empty_result(error: &VmError, execution: &PtcExecution, duration_ms: u64) -> (r: PtcResult)
    ensures
        r.value.text@ == "null"@,
        r.outcome@ == Outcome::Failed(error.text()),
        r.task_id == execution.task_id,
        r.execution_id == execution.execution_id,
        r.start_revision == execution.start_revision,
        r.end_revision == execution.start_revision,
        r.tool_calls == 0,
        r.duration_ms == duration_ms,
        r.events@.len() == 0,
        r.diagnostic is None,
{
    PtcResult {
        value: Json::null(),
        outcome: PtcOutcome::Failed(error.message()),
        task_id: execution.task_id,
        execution_id: execution.execution_id,
        start_revision: execution.start_revision.clone(),
        end_revision: execution.start_revision.clone(),
        tool_calls: 0,
        duration_ms,
        events: Vec::new(),
        diagnostic: None,
    }
}

/// The result of a run. A run whose events could not be delivered has failed,
/// whatever its program returned: its trace is not to be relied on.
pub fn finish_run(state: ExecState, ending: Ending, duration_ms: u64) -> (r: PtcResult)
    ensures
        r.value == ending.value,
        r.task_id == state.execution.task_id,
        r.execution_id == state.execution.execution_id,
        r.start_revision == state.execution.start_revision,
        r.end_revision == state.current_revision,
        r.tool_calls == state.tool_calls as usize,
        r.duration_ms == duration_ms,
        r.events@ == state.events@,
        match state.sink_error {
            None => r.outcome == ending.outcome && r.diagnostic == ending.diagnostic,
            Some(error) => {
                let message = "PTC event sink failed: "@ + error.0@;
                &&& r.outcome@ == Outcome::Failed(message)
                &&& r.diagnostic matches Some(d)
                &&& d.kind is Runtime
                &&& d.message@ == message
                &&& d.line is None
                &&& d.column is None
                &&& d.hint is None
            },
        },
{
    let ExecState {
        execution,
        current_revision,
        tool_calls,
        process_calls: _,
        interrupt_polls: _,
        next_call_id: _,
        events,
        checkpoints: _,
        sink_error,
        max_tool_calls: _,
        max_processes: _,
        max_interrupt_polls: _,
    } = state;
    let (outcome, told) = match sink_error {
        Some(error) => {
            let mut message = text("PTC event sink failed: ");
            message.append(error.0.as_str());
            (
                PtcOutcome::Failed(message.clone()),
                Some(diagnostic(PtcDiagnosticKind::Runtime, message)),
            )
        },
        None => (ending.outcome, ending.diagnostic),
    };
    PtcResult {
        value: ending.value,
        outcome,
        task_id: execution.task_id,
        execution_id: execution.execution_id,
        start_revision: execution.start_revision,
        end_revision: current_revision,
        tool_calls: #[verifier::truncate]
        (tool_calls as usize),
        duration_ms,
        events,
        diagnostic: told,
    }
}

/// How deep a document is searched for numbers; the parser takes no deeper one.
pub const SEARCH_DEPTH: usize = 130;

/// A key as it is written in a place.
pub open spec fn key_part(key: Seq<char>) -> Seq<char>
    decreases key.len(),
{
    if key.len() == 0 {
        Seq::empty()
    } else {
        key_part(key.drop_last()) + (if key.last() == '~' {
            seq!['~', '0']
        } else if key.last() == '/' {
            seq!['~', '1']
        } else {
            seq![key.last()]
        })
    }
}

fn key_text(key: &str) -> (r: String)
    ensures
        r@ == key_part(key@),
{
    let chars = to_chars(key);
    let mut out = String::new();
    let mut i: usize = 0;
    while i < chars.len()
        invariant
            i <= chars.len(),
            chars@ == key@,
            out@ == key_part(key@.take(i as int)),
        decreases chars.len() - i,
    {
        proof {
            assert(key@.take(i + 1).drop_last() =~= key@.take(i as int));
            assert(key@.take(i + 1).last() == key@[i as int]);
        }
        let ghost before = out@;
        if chars[i] == '~' {
            out.push('~');
            out.push('0');
            proof {
                assert(out@ =~= before + seq!['~', '0']);
            }
        } else if chars[i] == '/' {
            out.push('~');
            out.push('1');
            proof {
                assert(out@ =~= before + seq!['~', '1']);
            }
        } else {
            out.push(chars[i]);
            proof {
                assert(out@ =~= before + seq![key@[i as int]]);
            }
        }
        i = i + 1;
    }
    proof {
        assert(key@.take(i as int) =~= key@);
    }
    out
}

/// The place of an element below a place.
pub open spec fn item_below(place: Seq<char>, i: int) -> Seq<char> {
    place + "/"@ + decimal(i as nat)
}

/// The place of a member below a place.
pub open spec fn key_below(place: Seq<char>, key: Seq<char>) -> Seq<char> {
    place + "/"@ + key_part(key)
}

/// The unsigned numbers in a document from a place on, down to a depth.
pub open spec fn numbers_at(document: Seq<char>, place: Seq<char>, depth: nat) -> Seq<u64>
    decreases depth, 1nat, 0nat,
{
    if depth == 0 {
        Seq::empty()
    } else {
        match (
            json_number(document, place),
            json_array_len(document, place),
            json_keys(document, place),
        ) {
            (Some(n), _, _) => seq![n],
            (None, Some(len), _) => numbers_of_items(
                document,
                place,
                len as nat,
                (depth - 1) as nat,
            ),
            (None, None, Some(keys)) => numbers_of_keys(document, place, keys, (depth - 1) as nat),
            (None, None, None) => Seq::empty(),
        }
    }
}

/// The unsigned numbers in the first elements of an array.
pub open spec fn numbers_of_items(document: Seq<char>, place: Seq<char>, n: nat, depth: nat) -> Seq<
    u64,
>
    decreases depth, 2nat, n,
{
    if n == 0 {
        Seq::empty()
    } else {
        numbers_of_items(document, place, (n - 1) as nat, depth) + numbers_at(
            document,
            item_below(place, n - 1),
            depth,
        )
    }
}

/// The unsigned numbers in the members of an object.
pub open spec fn numbers_of_keys(
    document: Seq<char>,
    place: Seq<char>,
    keys: Seq<Seq<char>>,
    depth: nat,
) -> Seq<u64>
    decreases depth, 2nat, keys.len(),
{
    if keys.len() == 0 {
        Seq::empty()
    } else {
        numbers_of_keys(document, place, keys.drop_last(), depth) + numbers_at(
            document,
            key_below(place, keys.last()),
            depth,
        )
    }
}

/// Adds the unsigned numbers of a document, from a place on, to a list.
fn collect_numbers(document: &str, place: &str, depth: usize, out: &mut Vec<u64>)
    ensures
        final(out)@ == old(out)@ + numbers_at(document@, place@, depth as nat),
    decreases depth,
{
    let ghost was = out@;
    if depth == 0 {
        proof {
            assert(out@ =~= was + Seq::<u64>::empty());
        }
        return ;
    }
    match number_at(document, place) {
        Some(n) => {
            out.push(n);
            proof {
                assert(out@ =~= was + seq![n]);
            }
            return ;
        },
        None => {},
    }
    match array_len_at(document, place) {
        Some(len) => {
            let mut i: usize = 0;
            proof {
                assert(out@ =~= was + numbers_of_items(document@, place@, 0, (depth - 1) as nat));
            }
            while i < len
                invariant
                    0 < depth,
                    i <= len,
                    out@ == was + numbers_of_items(
                        document@,
                        place@,
                        i as nat,
                        (depth - 1) as nat,
                    ),
                decreases len - i,
            {
                let mut below = text(place);
                below.append("/");
                below.append(size_text(i).as_str());
                let ghost before = out@;
                collect_numbers(document, below.as_str(), depth - 1, out);
                proof {
                    assert(out@ =~= was + numbers_of_items(
                        document@,
                        place@,
                        (i + 1) as nat,
                        (depth - 1) as nat,
                    ));
                }
                i = i + 1;
            }
            return ;
        },
        None => {},
    }
    match keys_at(document, place) {
        Some(keys) => {
            let ghost all = views(keys@);
            let mut i: usize = 0;
            proof {
                assert(all.take(0) =~= Seq::<Seq<char>>::empty());
                assert(out@ =~= was + numbers_of_keys(
                    document@,
                    place@,
                    all.take(0),
                    (depth - 1) as nat,
                ));
            }
            while i < keys.len()
                invariant
                    0 < depth,
                    i <= keys.len(),
                    all == views(keys@),
                    out@ == was + numbers_of_keys(
                        document@,
                        place@,
                        all.take(i as int),
                        (depth - 1) as nat,
                    ),
                decreases keys.len() - i,
            {
                let mut below = text(place);
                below.append("/");
                below.append(key_text(keys[i].as_str()).as_str());
                collect_numbers(document, below.as_str(), depth - 1, out);
                proof {
                    assert(all.take(i + 1).drop_last() =~= all.take(i as int));
                    assert(all.take(i + 1).last() == keys@[i as int]@);
                    assert(out@ =~= was + numbers_of_keys(
                        document@,
                        place@,
                        all.take(i + 1),
                        (depth - 1) as nat,
                    ));
                }
                i = i + 1;
            }
            proof {
                assert(all.take(i as int) =~= all);
            }
        },
        None => {
            proof {
                assert(out@ =~= was + Seq::<u64>::empty());
            }
        },
    }
}

/// Whether a result is among those the store holds.
pub open spec fn stored(store: Seq<ResultId>, id: u64) -> bool {
    exists|k: int| 0 <= k < store.len() && (#[trigger] store[k]).0 == id
}

fn is_stored(store: &Vec<ResultId>, id: u64) -> (r: bool)
    ensures
        r == stored(store@, id),
{
    let mut i: usize = 0;
    while i < store.len()
        invariant
            i <= store.len(),
            forall|k: int| 0 <= k < i ==> (#[trigger] store@[k]).0 != id,
        decreases store.len() - i,
    {
        if store[i].0 == id {
            return true;
        }
        i = i + 1;
    }
    false
}

/// Whether results are in the order of their numbers, none of them twice.
pub open spec fn in_order(ids: Seq<ResultId>) -> bool {
    forall|i: int, j: int| 0 <= i < j < ids.len() ==> (#[trigger] ids[i]).0 < (#[trigger] ids[j]).0
}

/// Whether a result is in a list.
pub open spec fn has_id(ids: Seq<ResultId>, id: u64) -> bool {
    exists|k: int| 0 <= k < ids.len() && (#[trigger] ids[k]).0 == id
}

fn insert_id(ids: &mut Vec<ResultId>, id: u64)
    requires
        in_order(old(ids)@),
    ensures
        in_order(final(ids)@),
        forall|n: u64| #[trigger] has_id(final(ids)@, n) == (has_id(old(ids)@, n) || n == id),
{
    let ghost was = ids@;
    let mut i: usize = 0;
    while i < ids.len() && ids[i].0 < id
        invariant
            ids@ == was,
            in_order(was),
            i <= ids.len(),
            forall|k: int| 0 <= k < i ==> (#[trigger] was[k]).0 < id,
        decreases ids.len() - i,
    {
        i = i + 1;
    }
    if i < ids.len() && ids[i].0 == id {
        proof {
            assert(was[i as int].0 == id);
        }
        return ;
    }
    proof {
        assert forall|k: int| i <= k < was.len() implies (#[trigger] was[k]).0 > id by {
            if k > i {
                assert(was[i as int].0 < was[k].0);
            }
        }
    }
    ids.insert(i, ResultId(id));
    proof {
        let now = ids@;
        let at = i as int;
        assert(now =~= was.insert(at, ResultId(id)));
        assert forall|a: int, b: int| 0 <= a < b < now.len() implies (#[trigger] now[a]).0 < (
        #[trigger] now[b]).0 by {
            if b < at {
                assert(now[a] == was[a] && now[b] == was[b]);
            } else if b == at {
                assert(now[a] == was[a]);
            } else if a < at {
                assert(now[a] == was[a] && now[b] == was[b - 1]);
            } else if a == at {
                assert(now[b] == was[b - 1]);
            } else {
                assert(now[a] == was[a - 1] && now[b] == was[b - 1]);
            }
        }
        assert forall|n: u64| #[trigger] has_id(now, n) == (has_id(was, n) || n == id) by {
            assert(now[at].0 == id);
            if has_id(now, n) {
                let k = choose|k: int| 0 <= k < now.len() && (#[trigger] now[k]).0 == n;
                if k < at {
                    assert(was[k] == now[k]);
                } else if k > at {
                    assert(was[k - 1] == now[k]);
                }
            }
            if has_id(was, n) {
                let k = choose|k: int| 0 <= k < was.len() && (#[trigger] was[k]).0 == n;
                if k < at {
                    assert(now[k] == was[k]);
                } else {
                    assert(now[k + 1] == was[k]);
                }
            }
        }
    }
}

/// The stored results that metadata names, anywhere in it: in the order of their
/// numbers, none of them twice.
pub fn collect_result_ids(store: &Vec<ResultId>, metadata: &Json) -> (r: Vec<ResultId>)
    ensures
        in_order(r@),
        forall|n: u64| #[trigger]
            has_id(r@, n) == (numbers_at(metadata.text@, ""@, SEARCH_DEPTH as nat).contains(n)
                && stored(store@, n)),
{
    let mut numbers: Vec<u64> = Vec::new();
    collect_numbers(metadata.text.as_str(), "", SEARCH_DEPTH, &mut numbers);
    let ghost all = numbers_at(metadata.text@, ""@, SEARCH_DEPTH as nat);
    proof {
        assert(Seq::<u64>::empty() + all =~= all);
    }
    let mut ids: Vec<ResultId> = Vec::new();
    let mut i: usize = 0;
    while i < numbers.len()
        invariant
            i <= numbers.len(),
            numbers@ == all,
            in_order(ids@),
            forall|n: u64| #[trigger]
                has_id(ids@, n) == (all.take(i as int).contains(n) && stored(store@, n)),
        decreases numbers.len() - i,
    {
        let ghost before = ids@;
        let n: u64 = numbers[i];
        let kept = is_stored(store, n);
        if kept {
            insert_id(&mut ids, n);
        }
        proof {
            assert(all.take(i + 1) =~= all.take(i as int).push(n));
            assert forall|m: u64| #[trigger]
                has_id(ids@, m) == (all.take(i + 1).contains(m) && stored(store@, m)) by {
                assert(has_id(before, m) == (all.take(i as int).contains(m) && stored(store@, m)));
                let longer = all.take(i + 1);
                let shorter = all.take(i as int);
                assert(longer[i as int] == n);
                if shorter.contains(m) {
                    let k = choose|k: int| 0 <= k < shorter.len() && shorter[k] == m;
                    assert(longer[k] == m);
                }
                if longer.contains(m) && m != n {
                    let k = choose|k: int| 0 <= k < longer.len() && longer[k] == m;
                    assert(shorter[k] == m);
                }
            }
        }
        i = i + 1;
    }
    proof {
        assert(all.take(i as int) =~= all);
    }
    ids
}

/// The verification that a program reports: under the revision the run has
/// reached and the prelude it runs under.
pub fn evidence_record(
    state: &ExecState,
    store: &Vec<ResultId>,
    prelude: &Option<PreludeId>,
    kind: String,
    ok: bool,
    metadata: &Json,
    timestamp_ms: u64,
) -> (r: EvidenceRecord)
    ensures
        r.kind == kind,
        r.ok == ok,
        r.revision == state.current_revision,
        in_order(r.result_ids@),
        forall|n: u64| #[trigger]
            has_id(r.result_ids@, n) == (numbers_at(
                metadata.text@,
                ""@,
                SEARCH_DEPTH as nat,
            ).contains(n) && stored(store@, n)),
        opt_view(r.note) == json_string(metadata.text@, "/note"@),
        r.timestamp_ms == timestamp_ms,
        r.task_id == state.execution.task_id,
        r.execution_id == state.execution.execution_id,
        r.prelude == *prelude,
{
    EvidenceRecord {
        kind,
        ok,
        revision: state.current_revision.clone(),
        result_ids: collect_result_ids(store, metadata),
        note: string_at(metadata.text.as_str(), "/note"),
        timestamp_ms,
        task_id: state.execution.task_id,
        execution_id: state.execution.execution_id,
        prelude: copy_prelude(prelude),
    }
}

/// What a program sees of the output of a tool that lists.
#[derive(Clone, Debug, PartialEq, Eq)]
pub enum Listing {
    /// The output reports an error and is shown as it is.
    Whole,
    /// The items, and whether there were more.
    Items { items: Vec<Json>, truncated: bool },
}

/// What a program sees of the output of a tool that lists its findings under a
/// key, given by its place.
pub fn collection(output: &Json, place: &str) -> (r: Listing)
    ensures
        match r {
            Listing::Whole => json_value(output.text@, "/error"@) is Some,
            Listing::Items { items, truncated } => {
                &&& json_value(output.text@, "/error"@) is None
                &&& truncated == (json_bool(output.text@, "/truncated"@) == Some(true))
                &&& json_texts(items@) == match json_array_len(output.text@, place@) {
                    Some(n) => listed(output.text@, place@, n as nat),
                    None => Seq::empty(),
                }
            },
        },
{
    if value_at(output.text.as_str(), "/error").is_some() {
        return Listing::Whole;
    }
    let truncated = match bool_at(output.text.as_str(), "/truncated") {
        Some(b) => b,
        None => false,
    };
    let mut items: Vec<Json> = Vec::new();
    match array_len_at(output.text.as_str(), place) {
        Some(n) => {
            let mut i: usize = 0;
            while i < n
                invariant
                    i <= n,
                    items@.len() == i,
                    forall|k: int|
                        0 <= k < i ==> (#[trigger] items@[k]).text@ == listed(
                            output.text@,
                            place@,
                            n as nat,
                        )[k],
                decreases n - i,
            {
                let mut below = text(place);
                below.append("/");
                below.append(size_text(i).as_str());
                let item = match value_at(output.text.as_str(), below.as_str()) {
                    Some(printed) => Json { text: printed },
                    None => Json::null(),
                };
                items.push(item);
                i = i + 1;
            }
            proof {
                assert(json_texts(items@) =~= listed(output.text@, place@, n as nat));
            }
        },
        None => {
            proof {
                assert(json_texts(items@) =~= Seq::<Seq<char>>::empty());
            }
        },
    }
    Listing::Items { items, truncated }
}

/// The elements of the array at a place.
pub open spec fn listed(document: Seq<char>, place: Seq<char>, n: nat) -> Seq<Seq<char>> {
    Seq::new(
        n,
        |i: int|
            match json_value(document, item_below(place, i)) {
                Some(json) => json,
                None => "null"@,
            },
    )
}

/// What is known of a stored result.
#[derive(Clone, Copy, Debug, PartialEq, Eq)]
pub struct ResultMetadata {
    pub length: usize,
    pub total_bytes: usize,
    pub truncated: bool,
}

/// What a program sees of an output stream of a command.
#[derive(Clone, Copy, Debug, PartialEq, Eq)]
pub struct StreamHandle {
    pub id: i64,
    pub length: i64,
    pub total_bytes: i64,
    pub truncated: bool,
}

/// What a program sees of an output stream of a command.
pub fn stream_handle(id: u64, metadata: Option<ResultMetadata>) -> (r: StreamHandle)
    ensures
        r.id == if id <= i64::MAX {
            id as i64
        } else {
            i64::MAX
        },
        match metadata {
            Some(m) => r.length == m.length as i64 && r.total_bytes == m.total_bytes as i64
                && r.truncated == m.truncated,
            None => r.length == 0 && r.total_bytes == 0 && !r.truncated,
        },
{
    let shown: i64 = if id <= i64::MAX as u64 {
        id as i64
    } else {
        i64::MAX
    };
    match metadata {
        Some(m) => StreamHandle {
            id: shown,
            length: #[verifier::truncate]
            (m.length as i64),
            total_bytes: #[verifier::truncate]
            (m.total_bytes as i64),
            truncated: m.truncated,
        },
        None => StreamHandle { id: shown, length: 0, total_bytes: 0, truncated: false },
    }
}

/// What a program sees of the output of a command: its exit code, its duration,
/// and the numbers of its output streams.
#[derive(Clone, Copy, Debug, PartialEq, Eq)]
pub struct ExecSummary {
    pub exit_code: i64,
    pub duration_ms: i64,
    pub stdout: u64,
    pub stderr: u64,
}

/// Whether a summary is that of an output.
pub open spec fn is_summary(s: ExecSummary, output: Seq<char>) -> bool {
    &&& s.exit_code as int == match json_signed(output, "/exitCode"@) {
        Some(n) => n as int,
        None => -1,
    }
    &&& s.duration_ms == match json_signed(output, "/durationMs"@) {
        Some(n) => n,
        None => 0,
    }
    &&& s.stdout == match json_number(output, "/stdoutId"@) {
        Some(n) => n,
        None => 0,
    }
    &&& s.stderr == match json_number(output, "/stderrId"@) {
        Some(n) => n,
        None => 0,
    }
}

/// What a program sees of the output of a command; nothing where it reports an
/// error and is shown as it is.
pub fn exec_summary(output: &Json) -> (r: Option<ExecSummary>)
    ensures
        match r {
            None => json_value(output.text@, "/error"@) is Some,
            Some(s) => json_value(output.text@, "/error"@) is None && is_summary(s, output.text@),
        },
{
    let document = output.text.as_str();
    if value_at(document, "/error").is_some() {
        return None;
    }
    let exit_code: i64 = match signed_at(document, "/exitCode") {
        Some(n) => n,
        None => -1,
    };
    let duration_ms: i64 = match signed_at(document, "/durationMs") {
        Some(n) => n,
        None => 0,
    };
    let stdout: u64 = match number_at(document, "/stdoutId") {
        Some(n) => n,
        None => 0,
    };
    let stderr: u64 = match number_at(document, "/stderrId") {
        Some(n) => n,
        None => 0,
    };
    Some(ExecSummary { exit_code, duration_ms, stdout, stderr })
}

/// What a program sees of the output of a tool.
#[derive(Clone, Debug, PartialEq, Eq)]
pub enum ToolValue {
    /// The output as it is.
    Whole,
    /// The findings of a tool that lists, and whether there were more.
    Items { items: Vec<Json>, truncated: bool },
    /// A command that ran.
    Exec(ExecSummary),
}

/// The place of the findings in the output of a tool that lists.
pub open spec fn findings_place(name: Seq<char>) -> Option<Seq<char>> {
    if name == "glob"@ {
        Some("/files"@)
    } else if name == "grep"@ {
        Some("/matches"@)
    } else {
        None
    }
}

/// What a program sees of the output of a tool: a list of what it found, the
/// summary of a command that ran, and every other output, as well as one that
/// reports an error, as it is.
pub fn tool_value(name: &str, output: &Json) -> (r: ToolValue)
    ensures
        match r {
            ToolValue::Whole => json_value(output.text@, "/error"@) is Some || (name@ != "exec"@
                && findings_place(name@) is None),
            ToolValue::Items { items, truncated } => {
                &&& json_value(output.text@, "/error"@) is None
                &&& findings_place(name@) matches Some(place)
                &&& truncated == (json_bool(output.text@, "/truncated"@) == Some(true))
                &&& json_texts(items@) == match json_array_len(output.text@, place) {
                    Some(n) => listed(output.text@, place, n as nat),
                    None => Seq::empty(),
                }
            },
            ToolValue::Exec(s) => {
                &&& json_value(output.text@, "/error"@) is None
                &&& name@ == "exec"@
                &&& is_summary(s, output.text@)
            },
        },
{
    if same(name, "glob") {
        return shown_listing(collection(output, "/files"));
    }
    if same(name, "grep") {
        return shown_listing(collection(output, "/matches"));
    }
    if same(name, "exec") {
        return match exec_summary(output) {
            Some(summary) => ToolValue::Exec(summary),
            None => ToolValue::Whole,
        };
    }
    ToolValue::Whole
}

fn shown_listing(listing: Listing) -> (r: ToolValue)
    ensures
        match listing {
            Listing::Whole => r is Whole,
            Listing::Items { items, truncated } => r == (ToolValue::Items { items, truncated }),
        },
{
    match listing {
        Listing::Whole => ToolValue::Whole,
        Listing::Items { items, truncated } => ToolValue::Items { items, truncated },
    }
}

/// The members of a result handle, each with the name under which the host is
/// called for it.
pub open spec fn handle_members() -> Seq<(Seq<char>, Seq<char>)> {
    seq![
        ("read"@, "tr_read"@),
        ("head"@, "tr_head"@),
        ("tail"@, "tr_tail"@),
        ("grep"@, "tr_grep"@),
        ("json"@, "tr_json"@),
    ]
}

/// The members of a result handle, each with the name under which the host is
/// called for it.
pub fn handle_methods() -> (r: Vec<(&'static str, &'static str)>)
    ensures
        r@.map_values(|m: (&'static str, &'static str)| (m.0@, m.1@)) == handle_members(),
{
    let r: Vec<(&'static str, &'static str)> = vec![
        ("read", "tr_read"),
        ("head", "tr_head"),
        ("tail", "tr_tail"),
        ("grep", "tr_grep"),
        ("json", "tr_json"),
    ];
    proof {
        assert(r@.map_values(|m: (&'static str, &'static str)| (m.0@, m.1@))
            =~= handle_members());
    }
    r
}

/// Every member of a result handle is understood when it is called.
pub proof fn law_every_handle_member_is_understood(
    i: int,
    args: Seq<Argument>,
    receiver: Option<i64>,
)
    requires
        0 <= i < handle_members().len(),
    ensures
        handle_call(handle_members()[i].1, args, receiver) is Some,
{
}

} // verus!
