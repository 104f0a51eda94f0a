//! What a program asks of the host: each call by its name and arguments.
use vstd::prelude::*;
use vstd::string::StringExecFns;
use crate::delegation::DelegateResult;
use crate::goal::FinishVerdict;
use crate::identity::{AgentId, IsolatedWorkspaceId, ProcessId};
use crate::json::{array_len_at, error_json, json_array_len, json_number, json_string, json_value, number_at, quote, quoted, string_at, value_at, Json};
use crate::process::ProcessStream;
use crate::ptc::values::{value_json, vm_to_json, Js, Scalar};
use crate::text::{contains, contains_text, decimal, has_prefix, opt_view, same, size_text, starts_with, text};

verus! {

/// One argument of a call: the value, and what it reads as as a text and as a
/// number, where it does.
#[derive(Debug, PartialEq, Eq)]
pub struct Argument {
    pub value: Js,
    pub text: Option<String>,
    pub number: Option<i64>,
}

/// What a program asks of the host.
#[derive(Clone, Debug, PartialEq, Eq)]
pub enum HostCall {
    Tool { name: String, args: Json },
    Batch { tool: String, items: Vec<Json> },
    Goal { update: Json },
    Finish { request: Option<Json> },
    AgentSpawn { options: Json },
    AgentPoll(AgentId),
    AgentCancel(AgentId),
    AgentJoin(AgentId),
    AgentSend { agent: AgentId, message: String },
    AgentList,
    Delegate { options: Json },
    DelegateBatch { options: Json },
    ProcessSpawn { spec: Json },
    ProcessPoll(ProcessId),
    ProcessKill(ProcessId),
    ProcessWait { process: ProcessId, timeout_ms: Option<u64> },
    ProcessTail { process: ProcessId, stream: ProcessStream, lines: usize },
    ProcessWrite { process: ProcessId, data: String },
    ProcessList,
    Integrate(IsolatedWorkspaceId),
    Discard { workspace: IsolatedWorkspaceId, reason: String },
    Evidence { kind: String, ok: bool, metadata: Json },
    HandleRead { id: u64, offset: usize, limit: usize },
    HandleTail { id: u64, limit: usize },
    HandleGrep { id: u64, pattern: String, limit: usize },
    HandleJson { id: u64 },
}

/// A call as the plain values it holds.
pub enum Call {
    Tool { name: Seq<char>, args: Seq<char> },
    Batch { tool: Seq<char>, items: Seq<Seq<char>> },
    Goal(Seq<char>),
    Finish(Option<Seq<char>>),
    AgentSpawn(Seq<char>),
    AgentPoll(AgentId),
    AgentCancel(AgentId),
    AgentJoin(AgentId),
    AgentSend(AgentId, Seq<char>),
    AgentList,
    Delegate(Seq<char>),
    DelegateBatch(Seq<char>),
    ProcessSpawn(Seq<char>),
    ProcessPoll(ProcessId),
    ProcessKill(ProcessId),
    ProcessWait(ProcessId, Option<u64>),
    ProcessTail(ProcessId, ProcessStream, usize),
    ProcessWrite(ProcessId, Seq<char>),
    ProcessList,
    Integrate(IsolatedWorkspaceId),
    Discard(IsolatedWorkspaceId, Seq<char>),
    Evidence(Seq<char>, bool, Seq<char>),
    HandleRead(u64, usize, usize),
    HandleTail(u64, usize),
    HandleGrep(u64, Seq<char>, usize),
    HandleJson(u64),
}

/// The texts of JSON values.
pub open spec fn json_texts(items: Seq<Json>) -> Seq<Seq<char>> {
    items.map_values(|j: Json| j.text@)
}

impl View for HostCall {
    type V = Call;

    open spec fn view(&self) -> Call {
        match *self {
            HostCall::Tool { name, args } => Call::Tool { name: name@, args: args.text@ },
            HostCall::Batch { tool, items } => Call::Batch {
                tool: tool@,
                items: json_texts(items@),
            },
            HostCall::Goal { update } => Call::Goal(update.text@),
            HostCall::Finish { request } => Call::Finish(
                match request {
                    Some(j) => Some(j.text@),
                    None => None,
                },
            ),
            HostCall::AgentSpawn { options } => Call::AgentSpawn(options.text@),
            HostCall::AgentPoll(agent) => Call::AgentPoll(agent),
            HostCall::AgentCancel(agent) => Call::AgentCancel(agent),
            HostCall::AgentJoin(agent) => Call::AgentJoin(agent),
            HostCall::AgentSend { agent, message } => Call::AgentSend(agent, message@),
            HostCall::AgentList => Call::AgentList,
            HostCall::Delegate { options } => Call::Delegate(options.text@),
            HostCall::DelegateBatch { options } => Call::DelegateBatch(options.text@),
            HostCall::ProcessSpawn { spec } => Call::ProcessSpawn(spec.text@),
            HostCall::ProcessPoll(process) => Call::ProcessPoll(process),
            HostCall::ProcessKill(process) => Call::ProcessKill(process),
            HostCall::ProcessWait { process, timeout_ms } => Call::ProcessWait(process, timeout_ms),
            HostCall::ProcessTail { process, stream, lines } => Call::ProcessTail(
                process,
                stream,
                lines,
            ),
            HostCall::ProcessWrite { process, data } => Call::ProcessWrite(process, data@),
            HostCall::ProcessList => Call::ProcessList,
            HostCall::Integrate(workspace) => Call::Integrate(workspace),
            HostCall::Discard { workspace, reason } => Call::Discard(workspace, reason@),
            HostCall::Evidence { kind, ok, metadata } => Call::Evidence(kind@, ok, metadata.text@),
            HostCall::HandleRead { id, offset, limit } => Call::HandleRead(id, offset, limit),
            HostCall::HandleTail { id, limit } => Call::HandleTail(id, limit),
            HostCall::HandleGrep { id, pattern, limit } => Call::HandleGrep(id, pattern@, limit),
            HostCall::HandleJson { id } => Call::HandleJson(id),
        }
    }
}

/// A call, or the text of its refusal.
pub open spec fn call_of(r: Result<HostCall, String>) -> Result<Call, Seq<char>> {
    match r {
        Ok(call) => Ok(call@),
        Err(message) => Err(message@),
    }
}

/// A call of one family, or the text of its refusal; nothing where the name is
/// of another family.
pub open spec fn family_call(r: Option<Result<HostCall, String>>) -> Option<
    Result<Call, Seq<char>>,
> {
    match r {
        Some(r) => Some(call_of(r)),
        None => None,
    }
}

/// The text of an argument, where it has one.
pub open spec fn text_arg(args: Seq<Argument>, i: int) -> Option<Seq<char>> {
    if 0 <= i < args.len() {
        opt_view(args[i].text)
    } else {
        None
    }
}

/// The number of an argument, where it has one.
pub open spec fn number_arg(args: Seq<Argument>, i: int) -> Option<i64> {
    if 0 <= i < args.len() {
        args[i].number
    } else {
        None
    }
}

/// The JSON value of an argument, where there is one.
pub open spec fn json_arg(args: Seq<Argument>, i: int, max: nat) -> Option<Seq<char>> {
    if 0 <= i < args.len() {
        Some(value_json(args[i].value, max))
    } else {
        None
    }
}

fn text_of(args: &Vec<Argument>, i: usize) -> (r: Option<String>)
    ensures
        opt_view(r) == text_arg(args@, i as int),
{
    if i < args.len() {
        match &args[i].text {
            Some(s) => Some(s.clone()),
            None => None,
        }
    } else {
        None
    }
}

fn number_of(args: &Vec<Argument>, i: usize) -> (r: Option<i64>)
    ensures
        r == number_arg(args@, i as int),
{
    if i < args.len() {
        args[i].number
    } else {
        None
    }
}

/// The JSON text of an optional value.
pub open spec fn opt_json(j: Option<Json>) -> Option<Seq<char>> {
    match j {
        Some(j) => Some(j.text@),
        None => None,
    }
}

fn json_of(args: &Vec<Argument>, i: usize, max: usize) -> (r: Option<Json>)
    ensures
        opt_json(r) == json_arg(args@, i as int, max as nat),
{
    if i < args.len() {
        Some(vm_to_json(&args[i].value, max))
    } else {
        None
    }
}

/// An object with one text under one key.
pub open spec fn one_text(key: Seq<char>, value: Seq<char>) -> Seq<char> {
    "{"@ + quoted(key) + ":"@ + quoted(value) + "}"@
}

fn one_text_json(key: &str, value: &str) -> (r: Json)
    ensures
        r.text@ == one_text(key@, value@),
{
    let mut s = text("{");
    s.append(quote(key).as_str());
    s.append(":");
    s.append(quote(value).as_str());
    s.append("}");
    Json { text: s }
}

/// The arguments of a write.
pub open spec fn write_args(path: Seq<char>, content: Seq<char>) -> Seq<char> {
    "{\"content\":"@ + quoted(content) + ",\"path\":"@ + quoted(path) + "}"@
}

fn write_json(path: &str, content: &str) -> (r: Json)
    ensures
        r.text@ == write_args(path@, content@),
{
    let mut s = text("{\"content\":");
    s.append(quote(content).as_str());
    s.append(",\"path\":");
    s.append(quote(path).as_str());
    s.append("}");
    Json { text: s }
}

/// A call of a tool by its name.
pub open spec fn tool(name: Seq<char>, args: Seq<char>) -> Option<Result<Call, Seq<char>>> {
    Some(Ok(Call::Tool { name, args }))
}

/// A refused call.
pub open spec fn refused(message: Seq<char>) -> Option<Result<Call, Seq<char>>> {
    Some(Err(message))
}

/// The tool calls.
pub open spec fn tool_call(name: Seq<char>, args: Seq<Argument>, max: nat) -> Option<
    Result<Call, Seq<char>>,
> {
    if name == "tool"@ || name == "call_tool"@ {
        match text_arg(args, 0) {
            None => refused("tool(name, args): name required"@),
            Some(named) => tool(
                named,
                match json_arg(args, 1, max) {
                    Some(json) => json,
                    None => "null"@,
                },
            ),
        }
    } else if name == "read"@ {
        if args.len() == 0 {
            refused("read(path) or read({path})"@)
        } else {
            match args[0].value {
                Js::Scalar(Scalar::Text(path)) => tool("read"@, one_text("path"@, path@)),
                _ => tool("read"@, value_json(args[0].value, usize::MAX as nat)),
            }
        }
    } else if name == "write"@ {
        match (text_arg(args, 0), text_arg(args, 1)) {
            (Some(path), Some(content)) => tool("write"@, write_args(path, content)),
            _ => refused("write(path, content)"@),
        }
    } else if name == "edit"@ {
        match json_arg(args, 0, max) {
            Some(json) => tool("edit"@, json),
            None => refused("edit(argsObject)"@),
        }
    } else if name == "glob"@ {
        match text_arg(args, 0) {
            Some(pattern) => tool("glob"@, one_text("pattern"@, pattern)),
            None => refused("glob(pattern)"@),
        }
    } else if name == "grep"@ {
        match json_arg(args, 0, max) {
            Some(json) => tool("grep"@, json),
            None => refused("grep(argsObject)"@),
        }
    } else if name == "exec"@ {
        match json_arg(args, 0, max) {
            Some(json) => tool("exec"@, json),
            None => refused("exec(argsObject)"@),
        }
    } else if name == "checkpoint"@ {
        tool("checkpoint"@, "null"@)
    } else if name == "restore"@ {
        match json_arg(args, 0, max) {
            Some(json) => tool("restore"@, json),
            None => refused("restore(checkpoint)"@),
        }
    } else {
        None
    }
}

fn tool_with(name: &str, args: Json) -> (r: Option<Result<HostCall, String>>)
    ensures
        family_call(r) == tool(name@, args.text@),
{
    Some(Ok(HostCall::Tool { name: text(name), args }))
}

fn refuse(message: &str) -> (r: Option<Result<HostCall, String>>)
    ensures
        family_call(r) == refused(message@),
{
    Some(Err(text(message)))
}

fn object_tool(name: &str, args: &Vec<Argument>, max: usize, usage: &str) -> (r: Option<
    Result<HostCall, String>,
>)
    ensures
        family_call(r) == match json_arg(args@, 0, max as nat) {
            Some(json) => tool(name@, json),
            None => refused(usage@),
        },
{
    match json_of(args, 0, max) {
        Some(json) => tool_with(name, json),
        None => refuse(usage),
    }
}

/// Reads a tool call.
pub fn plan_tool(name: &str, args: &Vec<Argument>, max: usize) -> (r: Option<
    Result<HostCall, String>,
>)
    ensures
        family_call(r) == tool_call(name@, args@, max as nat),
{
    if same(name, "tool") || same(name, "call_tool") {
        match text_of(args, 0) {
            None => refuse("tool(name, args): name required"),
            Some(named) => {
                let json = match json_of(args, 1, max) {
                    Some(json) => json,
                    None => Json::null(),
                };
                tool_with(named.as_str(), json)
            },
        }
    } else if same(name, "read") {
        if args.len() == 0 {
            refuse("read(path) or read({path})")
        } else {
            match &args[0].value {
                Js::Scalar(Scalar::Text(path)) => tool_with(
                    "read",
                    one_text_json("path", path.as_str()),
                ),
                _ => tool_with("read", vm_to_json(&args[0].value, usize::MAX)),
            }
        }
    } else if same(name, "write") {
        match (text_of(args, 0), text_of(args, 1)) {
            (Some(path), Some(content)) => tool_with(
                "write",
                write_json(path.as_str(), content.as_str()),
            ),
            _ => refuse("write(path, content)"),
        }
    } else if same(name, "edit") {
        object_tool("edit", args, max, "edit(argsObject)")
    } else if same(name, "glob") {
        match text_of(args, 0) {
            Some(pattern) => tool_with("glob", one_text_json("pattern", pattern.as_str())),
            None => refuse("glob(pattern)"),
        }
    } else if same(name, "grep") {
        object_tool("grep", args, max, "grep(argsObject)")
    } else if same(name, "exec") {
        object_tool("exec", args, max, "exec(argsObject)")
    } else if same(name, "checkpoint") {
        tool_with("checkpoint", Json::null())
    } else if same(name, "restore") {
        object_tool("restore", args, max, "restore(checkpoint)")
    } else {
        None
    }
}

/// The place of an element of an array.
pub open spec fn element_place(i: int) -> Seq<char> {
    "/"@ + decimal(i as nat)
}

/// The elements of an array, as JSON.
pub open spec fn array_items(document: Seq<char>, n: nat) -> Seq<Seq<char>> {
    Seq::new(
        n,
        |i: int|
            match json_value(document, element_place(i)) {
                Some(json) => json,
                None => "null"@,
            },
    )
}

/// The batch call.
pub open spec fn batch_call(name: Seq<char>, args: Seq<Argument>, cancelled: bool, max: nat) -> Option<
    Result<Call, Seq<char>>,
> {
    if name != "batch"@ {
        None
    } else if cancelled {
        refused("cancelled"@)
    } else {
        match (text_arg(args, 0), json_arg(args, 1, max)) {
            (None, _) => refused("batch(name, args[]): name required"@),
            (Some(_), None) => refused("batch(name, args[]): args array required"@),
            (Some(named), Some(json)) => match json_array_len(json, ""@) {
                None => refused("batch(name, args[]): args must be an array"@),
                Some(n) => Some(
                    Ok(Call::Batch { tool: named, items: array_items(json, n as nat) }),
                ),
            },
        }
    }
}

/// Reads the batch call.
pub fn plan_batch(name: &str, args: &Vec<Argument>, cancelled: bool, max: usize) -> (r: Option<
    Result<HostCall, String>,
>)
    ensures
        family_call(r) == batch_call(name@, args@, cancelled, max as nat),
{
    if !same(name, "batch") {
        return None;
    }
    if cancelled {
        return refuse("cancelled");
    }
    let named = match text_of(args, 0) {
        Some(named) => named,
        None => {
            return refuse("batch(name, args[]): name required");
        },
    };
    let json = match json_of(args, 1, max) {
        Some(json) => json,
        None => {
            return refuse("batch(name, args[]): args array required");
        },
    };
    let n: usize = match array_len_at(json.text.as_str(), "") {
        Some(n) => n,
        None => {
            return refuse("batch(name, args[]): args must be an array");
        },
    };
    let mut items: Vec<Json> = Vec::new();
    let mut i: usize = 0;
    while i < n
        invariant
            i <= n,
            items@.len() == i,
            forall|k: int|
                0 <= k < i ==> (#[trigger] items@[k]).text@ == array_items(
                    json.text@,
                    n as nat,
                )[k],
        decreases n - i,
    {
        let mut place = text("/");
        place.append(size_text(i).as_str());
        let item = match value_at(json.text.as_str(), place.as_str()) {
            Some(printed) => Json { text: printed },
            None => Json::null(),
        };
        items.push(item);
        i = i + 1;
    }
    proof {
        assert(json_texts(items@) =~= array_items(json.text@, n as nat));
    }
    Some(Ok(HostCall::Batch { tool: named, items }))
}

/// The refusal of a call that needs an agent runtime where there is none.
pub open spec fn no_host(name: Seq<char>) -> Seq<char> {
    name + ": no agent runtime is attached to this execution"@
}

/// The agent that an argument names: a bare number, or an object that carries
/// one.
pub open spec fn agent_named(name: Seq<char>, args: Seq<Argument>, max: nat) -> Result<
    AgentId,
    Seq<char>,
> {
    match json_arg(args, 0, max) {
        None => Err(name + "(agent)"@),
        Some(json) => match (json_number(json, ""@), json_number(json, "/agent"@)) {
            (Some(n), _) => Ok(AgentId(n)),
            (None, Some(n)) => Ok(AgentId(n)),
            (None, None) => Err(name + ": agent id required"@),
        },
    }
}

/// The agent that an argument names.
pub fn agent_argument(name: &str, args: &Vec<Argument>, max: usize) -> (r: Result<AgentId, String>)
    ensures
        match r {
            Ok(agent) => agent_named(name@, args@, max as nat) == Ok::<AgentId, Seq<char>>(agent),
            Err(m) => agent_named(name@, args@, max as nat) == Err::<AgentId, Seq<char>>(m@),
        },
        forall|n: u64|
            json_arg(args@, 0, max as nat) == Some(#[trigger] decimal(n as nat)) ==> r == Ok::<
                AgentId,
                String,
            >(AgentId(n)),
{
    match json_of(args, 0, max) {
        None => {
            let mut s = text(name);
            s.append("(agent)");
            Err(s)
        },
        Some(json) => {
            match number_at(json.text.as_str(), "") {
                Some(n) => Ok(AgentId(n)),
                None => match number_at(json.text.as_str(), "/agent") {
                    Some(n) => Ok(AgentId(n)),
                    None => {
                        let mut s = text(name);
                        s.append(": agent id required");
                        Err(s)
                    },
                },
            }
        },
    }
}

/// The process that an argument names: a bare number, or an object that carries
/// one.
pub open spec fn process_named(name: Seq<char>, args: Seq<Argument>, max: nat) -> Result<
    ProcessId,
    Seq<char>,
> {
    match json_arg(args, 0, max) {
        None => Err(name + "(process)"@),
        Some(json) => match (
            json_number(json, ""@),
            json_number(json, "/id"@),
            json_number(json, "/process"@),
        ) {
            (Some(n), _, _) => Ok(ProcessId(n)),
            (None, Some(n), _) => Ok(ProcessId(n)),
            (None, None, Some(n)) => Ok(ProcessId(n)),
            (None, None, None) => Err(name + ": process id required"@),
        },
    }
}

/// The process that an argument names.
pub fn process_argument(name: &str, args: &Vec<Argument>, max: usize) -> (r: Result<
    ProcessId,
    String,
>)
    ensures
        match r {
            Ok(process) => process_named(name@, args@, max as nat) == Ok::<ProcessId, Seq<char>>(
                process,
            ),
            Err(m) => process_named(name@, args@, max as nat) == Err::<ProcessId, Seq<char>>(m@),
        },
        forall|n: u64|
            json_arg(args@, 0, max as nat) == Some(#[trigger] decimal(n as nat)) ==> r == Ok::<
                ProcessId,
                String,
            >(ProcessId(n)),
{
    match json_of(args, 0, max) {
        None => {
            let mut s = text(name);
            s.append("(process)");
            Err(s)
        },
        Some(json) => {
            match number_at(json.text.as_str(), "") {
                Some(n) => Ok(ProcessId(n)),
                None => match number_at(json.text.as_str(), "/id") {
                    Some(n) => Ok(ProcessId(n)),
                    None => match number_at(json.text.as_str(), "/process") {
                        Some(n) => Ok(ProcessId(n)),
                        None => {
                            let mut s = text(name);
                            s.append(": process id required");
                            Err(s)
                        },
                    },
                },
            }
        },
    }
}

/// Whether a name is of a call on goals or workers.
pub open spec fn is_worker_name(name: Seq<char>) -> bool {
    name == "goal"@ || name == "finish"@ || name == "agent_spawn"@ || name == "agent_poll"@ || name
        == "agent_cancel"@ || name == "agent_join"@ || name == "agent_send"@ || name
        == "agent_list"@ || name == "delegate"@ || name == "delegate_batch"@
}

/// A call with the JSON value of its first argument, or the refusal that says
/// how it is used.
pub open spec fn with_json(
    args: Seq<Argument>,
    max: nat,
    usage: Seq<char>,
    call: spec_fn(Seq<char>) -> Call,
) -> Option<Result<Call, Seq<char>>> {
    match json_arg(args, 0, max) {
        Some(json) => Some(Ok(call(json))),
        None => refused(usage),
    }
}

/// The calls on goals and workers.
pub open spec fn worker_call(name: Seq<char>, args: Seq<Argument>, has_host: bool, max: nat) -> Option<
    Result<Call, Seq<char>>,
> {
    if !is_worker_name(name) {
        None
    } else if !has_host {
        refused(no_host(name))
    } else if name == "goal"@ {
        with_json(args, max, "goal(update)"@, |json: Seq<char>| Call::Goal(json))
    } else if name == "finish"@ {
        Some(Ok(Call::Finish(json_arg(args, 0, max))))
    } else if name == "agent_spawn"@ {
        with_json(args, max, "agent_spawn(options)"@, |json: Seq<char>| Call::AgentSpawn(json))
    } else if name == "delegate"@ {
        with_json(args, max, "delegate(options)"@, |json: Seq<char>| Call::Delegate(json))
    } else if name == "delegate_batch"@ {
        with_json(
            args,
            max,
            "delegate_batch(options[])"@,
            |json: Seq<char>| Call::DelegateBatch(json),
        )
    } else if name == "agent_list"@ {
        Some(Ok(Call::AgentList))
    } else {
        match agent_named(name, args, max) {
            Err(message) => refused(message),
            Ok(agent) => if name == "agent_poll"@ {
                Some(Ok(Call::AgentPoll(agent)))
            } else if name == "agent_cancel"@ {
                Some(Ok(Call::AgentCancel(agent)))
            } else if name == "agent_join"@ {
                Some(Ok(Call::AgentJoin(agent)))
            } else {
                match text_arg(args, 1) {
                    Some(message) => Some(Ok(Call::AgentSend(agent, message))),
                    None => refused("agent_send(agent, message)"@),
                }
            },
        }
    }
}

fn refuse_hostless(name: &str) -> (r: Option<Result<HostCall, String>>)
    ensures
        family_call(r) == refused(no_host(name@)),
{
    let mut s = text(name);
    s.append(": no agent runtime is attached to this execution");
    Some(Err(s))
}

/// Reads a call on goals or workers.
pub fn plan_worker(name: &str, args: &Vec<Argument>, has_host: bool, max: usize) -> (r: Option<
    Result<HostCall, String>,
>)
    ensures
        family_call(r) == worker_call(name@, args@, has_host, max as nat),
{
    let known = same(name, "goal") || same(name, "finish") || same(name, "agent_spawn") || same(
        name,
        "agent_poll",
    ) || same(name, "agent_cancel") || same(name, "agent_join") || same(name, "agent_send") || same(
        name,
        "agent_list",
    ) || same(name, "delegate") || same(name, "delegate_batch");
    if !known {
        return None;
    }
    if !has_host {
        return refuse_hostless(name);
    }
    if same(name, "goal") {
        match json_of(args, 0, max) {
            Some(update) => Some(Ok(HostCall::Goal { update })),
            None => refuse("goal(update)"),
        }
    } else if same(name, "finish") {
        Some(Ok(HostCall::Finish { request: json_of(args, 0, max) }))
    } else if same(name, "agent_spawn") {
        match json_of(args, 0, max) {
            Some(options) => Some(Ok(HostCall::AgentSpawn { options })),
            None => refuse("agent_spawn(options)"),
        }
    } else if same(name, "delegate") {
        match json_of(args, 0, max) {
            Some(options) => Some(Ok(HostCall::Delegate { options })),
            None => refuse("delegate(options)"),
        }
    } else if same(name, "delegate_batch") {
        match json_of(args, 0, max) {
            Some(options) => Some(Ok(HostCall::DelegateBatch { options })),
            None => refuse("delegate_batch(options[])"),
        }
    } else if same(name, "agent_list") {
        Some(Ok(HostCall::AgentList))
    } else {
        match agent_argument(name, args, max) {
            Err(message) => Some(Err(message)),
            Ok(agent) => {
                if same(name, "agent_poll") {
                    Some(Ok(HostCall::AgentPoll(agent)))
                } else if same(name, "agent_cancel") {
                    Some(Ok(HostCall::AgentCancel(agent)))
                } else if same(name, "agent_join") {
                    Some(Ok(HostCall::AgentJoin(agent)))
                } else {
                    match text_of(args, 1) {
                        Some(message) => Some(Ok(HostCall::AgentSend { agent, message })),
                        None => refuse("agent_send(agent, message)"),
                    }
                }
            },
        }
    }
}

/// A text as Rust's debug output shows it.
pub uninterp spec fn debug_shown(s: Seq<char>) -> Seq<char>;

/// `format!` with `{:?}` of a string. Claimed: the result depends on the string
/// alone.
#[verifier::external_body]
pub(crate) fn debug_text(s: &str) -> (r: String)
    ensures
        r@ == debug_shown(s@),
{
    format!("{:?}", s)
}

/// Whether a name is of a call on processes.
pub open spec fn is_process_name(name: Seq<char>) -> bool {
    name == "process_spawn"@ || name == "process_poll"@ || name == "process_kill"@ || name
        == "process_wait"@ || name == "process_tail"@ || name == "process_write"@ || name
        == "process_list"@
}

/// A number that may be negative, as one that may not.
pub open spec fn unsigned(n: Option<i64>) -> Option<u64> {
    match n {
        Some(n) => if n >= 0 {
            Some(n as u64)
        } else {
            None
        },
        None => None,
    }
}

/// How many lines of output are asked for.
pub open spec fn lines_asked(n: Option<i64>) -> usize {
    match n {
        Some(n) => if 0 <= n <= usize::MAX {
            n as usize
        } else {
            100
        },
        None => 100,
    }
}

/// The stream that a text names; the standard output where there is none.
pub open spec fn stream_named(s: Option<Seq<char>>) -> Result<ProcessStream, Seq<char>> {
    match s {
        None => Ok(ProcessStream::Stdout),
        Some(named) => if named == "stdout"@ {
            Ok(ProcessStream::Stdout)
        } else if named == "stderr"@ {
            Ok(ProcessStream::Stderr)
        } else {
            Err(
                "process_tail: stream must be \"stdout\" or \"stderr\", got "@ + debug_shown(named),
            )
        },
    }
}

/// The calls on processes.
pub open spec fn process_call(name: Seq<char>, args: Seq<Argument>, has_host: bool, max: nat) -> Option<
    Result<Call, Seq<char>>,
> {
    if !is_process_name(name) {
        None
    } else if !has_host {
        refused(no_host(name))
    } else if name == "process_spawn"@ {
        with_json(args, max, "process_spawn(spec)"@, |json: Seq<char>| Call::ProcessSpawn(json))
    } else if name == "process_list"@ {
        Some(Ok(Call::ProcessList))
    } else {
        match process_named(name, args, max) {
            Err(message) => refused(message),
            Ok(process) => if name == "process_poll"@ {
                Some(Ok(Call::ProcessPoll(process)))
            } else if name == "process_kill"@ {
                Some(Ok(Call::ProcessKill(process)))
            } else if name == "process_wait"@ {
                Some(Ok(Call::ProcessWait(process, unsigned(number_arg(args, 1)))))
            } else if name == "process_tail"@ {
                match stream_named(text_arg(args, 1)) {
                    Ok(stream) => Some(
                        Ok(Call::ProcessTail(process, stream, lines_asked(number_arg(args, 2)))),
                    ),
                    Err(message) => refused(message),
                }
            } else {
                match text_arg(args, 1) {
                    Some(data) => Some(Ok(Call::ProcessWrite(process, data))),
                    None => refused("process_write(process, data)"@),
                }
            },
        }
    }
}

fn to_unsigned(n: Option<i64>) -> (r: Option<u64>)
    ensures
        r == unsigned(n),
{
    match n {
        Some(n) => if n >= 0 {
            Some(n as u64)
        } else {
            None
        },
        None => None,
    }
}

fn to_lines(n: Option<i64>) -> (r: usize)
    ensures
        r == lines_asked(n),
{
    match n {
        Some(n) => if n >= 0 && n as u64 <= usize::MAX as u64 {
            n as usize
        } else {
            100
        },
        None => 100,
    }
}

fn to_stream(s: Option<String>) -> (r: Result<ProcessStream, String>)
    ensures
        match r {
            Ok(stream) => stream_named(opt_view(s)) == Ok::<ProcessStream, Seq<char>>(stream),
            Err(m) => stream_named(opt_view(s)) == Err::<ProcessStream, Seq<char>>(m@),
        },
{
    match s {
        None => Ok(ProcessStream::Stdout),
        Some(named) => {
            if same(named.as_str(), "stdout") {
                Ok(ProcessStream::Stdout)
            } else if same(named.as_str(), "stderr") {
                Ok(ProcessStream::Stderr)
            } else {
                let mut m = text("process_tail: stream must be \"stdout\" or \"stderr\", got ");
                m.append(debug_text(named.as_str()).as_str());
                Err(m)
            }
        },
    }
}

/// Reads a call on processes.
pub fn plan_process(name: &str, args: &Vec<Argument>, has_host: bool, max: usize) -> (r: Option<
    Result<HostCall, String>,
>)
    ensures
        family_call(r) == process_call(name@, args@, has_host, max as nat),
{
    let known = same(name, "process_spawn") || same(name, "process_poll") || same(
        name,
        "process_kill",
    ) || same(name, "process_wait") || same(name, "process_tail") || same(name, "process_write")
        || same(name, "process_list");
    if !known {
        return None;
    }
    if !has_host {
        return refuse_hostless(name);
    }
    if same(name, "process_spawn") {
        match json_of(args, 0, max) {
            Some(spec) => Some(Ok(HostCall::ProcessSpawn { spec })),
            None => refuse("process_spawn(spec)"),
        }
    } else if same(name, "process_list") {
        Some(Ok(HostCall::ProcessList))
    } else {
        match process_argument(name, args, max) {
            Err(message) => Some(Err(message)),
            Ok(process) => {
                if same(name, "process_poll") {
                    Some(Ok(HostCall::ProcessPoll(process)))
                } else if same(name, "process_kill") {
                    Some(Ok(HostCall::ProcessKill(process)))
                } else if same(name, "process_wait") {
                    let timeout_ms = to_unsigned(number_of(args, 1));
                    Some(Ok(HostCall::ProcessWait { process, timeout_ms }))
                } else if same(name, "process_tail") {
                    match to_stream(text_of(args, 1)) {
                        Ok(stream) => {
                            let lines: usize = to_lines(number_of(args, 2));
                            Some(Ok(HostCall::ProcessTail { process, stream, lines }))
                        },
                        Err(message) => Some(Err(message)),
                    }
                } else {
                    match text_of(args, 1) {
                        Some(data) => Some(Ok(HostCall::ProcessWrite { process, data })),
                        None => refuse("process_write(process, data)"),
                    }
                }
            },
        }
    }
}

/// The workspace that an argument names: an object that carries a number, or a
/// bare number.
pub open spec fn workspace_named(json: Seq<char>) -> Option<u64> {
    match json_number(json, "/id"@) {
        Some(n) => Some(n),
        None => json_number(json, ""@),
    }
}

fn workspace_number(json: &Json) -> (r: Option<u64>)
    ensures
        r == workspace_named(json.text@),
{
    match number_at(json.text.as_str(), "/id") {
        Some(n) => Some(n),
        None => number_at(json.text.as_str(), ""),
    }
}

/// The calls on isolated workspaces and on evidence.
pub open spec fn record_call(name: Seq<char>, args: Seq<Argument>, has_host: bool, max: nat) -> Option<
    Result<Call, Seq<char>>,
> {
    if name == "integrate"@ {
        if !has_host {
            refused(no_host(name))
        } else {
            match json_arg(args, 0, max) {
                None => refused("integrate(workspace)"@),
                Some(json) => match workspace_named(json) {
                    Some(id) => Some(Ok(Call::Integrate(IsolatedWorkspaceId(id)))),
                    None => refused("integrate: workspace id required"@),
                },
            }
        }
    } else if name == "discard"@ {
        if !has_host {
            refused(no_host(name))
        } else {
            match json_arg(args, 0, max) {
                None => refused("discard(workspace, reason)"@),
                Some(json) => match workspace_named(json) {
                    Some(id) => Some(
                        Ok(
                            Call::Discard(
                                IsolatedWorkspaceId(id),
                                match text_arg(args, 1) {
                                    Some(reason) => reason,
                                    None => "no reason given"@,
                                },
                            ),
                        ),
                    ),
                    None => refused("discard: workspace id required"@),
                },
            }
        }
    } else if name == "evidence"@ {
        match text_arg(args, 0) {
            None => refused("evidence(kind, ok, metadata?)"@),
            Some(kind) => if 1 < args.len() {
                match args[1].value {
                    Js::Scalar(Scalar::Bool(ok)) => Some(
                        Ok(
                            Call::Evidence(
                                kind,
                                ok,
                                match json_arg(args, 2, max) {
                                    Some(json) => json,
                                    None => "null"@,
                                },
                            ),
                        ),
                    ),
                    _ => refused("evidence(kind, ok, metadata?): ok must be boolean"@),
                }
            } else {
                refused("evidence(kind, ok, metadata?): ok must be boolean"@)
            },
        }
    } else {
        None
    }
}

/// Reads a call on isolated workspaces or on evidence.
pub fn plan_record(name: &str, args: &Vec<Argument>, has_host: bool, max: usize) -> (r: Option<
    Result<HostCall, String>,
>)
    ensures
        family_call(r) == record_call(name@, args@, has_host, max as nat),
{
    if same(name, "integrate") {
        if !has_host {
            return refuse_hostless(name);
        }
        match json_of(args, 0, max) {
            None => refuse("integrate(workspace)"),
            Some(json) => match workspace_number(&json) {
                Some(id) => Some(Ok(HostCall::Integrate(IsolatedWorkspaceId(id)))),
                None => refuse("integrate: workspace id required"),
            },
        }
    } else if same(name, "discard") {
        if !has_host {
            return refuse_hostless(name);
        }
        match json_of(args, 0, max) {
            None => refuse("discard(workspace, reason)"),
            Some(json) => match workspace_number(&json) {
                Some(id) => {
                    let reason = match text_of(args, 1) {
                        Some(reason) => reason,
                        None => text("no reason given"),
                    };
                    Some(Ok(HostCall::Discard { workspace: IsolatedWorkspaceId(id), reason }))
                },
                None => refuse("discard: workspace id required"),
            },
        }
    } else if same(name, "evidence") {
        match text_of(args, 0) {
            None => refuse("evidence(kind, ok, metadata?)"),
            Some(kind) => {
                if args.len() <= 1 {
                    return refuse("evidence(kind, ok, metadata?): ok must be boolean");
                }
                match &args[1].value {
                    Js::Scalar(Scalar::Bool(ok)) => {
                        let metadata = match json_of(args, 2, max) {
                            Some(json) => json,
                            None => Json::null(),
                        };
                        Some(Ok(HostCall::Evidence { kind, ok: *ok, metadata }))
                    },
                    _ => refuse("evidence(kind, ok, metadata?): ok must be boolean"),
                }
            },
        }
    } else {
        None
    }
}

/// A number an argument gives for a size, else the usual one.
pub open spec fn size_arg(args: Seq<Argument>, i: int, usual: i64) -> usize {
    match number_arg(args, i) {
        Some(n) => n as usize,
        None => usual as usize,
    }
}

fn size_of_arg(args: &Vec<Argument>, i: usize, usual: i64) -> (r: usize)
    ensures
        r == size_arg(args@, i as int, usual),
{
    let n: i64 = match number_of(args, i) {
        Some(n) => n,
        None => usual,
    };
    #[verifier::truncate]
    (n as usize)
}

/// Whether a name is of a method of a result handle.
pub open spec fn is_handle_name(name: Seq<char>) -> bool {
    name == "tr_read"@ || name == "tr_head"@ || name == "tr_tail"@ || name == "tr_grep"@ || name
        == "tr_json"@
}

/// The methods of a result handle; `receiver` is the number the handle carries.
pub open spec fn handle_call(name: Seq<char>, args: Seq<Argument>, receiver: Option<i64>) -> Option<
    Result<Call, Seq<char>>,
> {
    if !is_handle_name(name) {
        None
    } else {
        match unsigned(receiver) {
            None => refused("handle: id"@),
            Some(id) => if name == "tr_read"@ {
                Some(Ok(Call::HandleRead(id, size_arg(args, 0, 0), size_arg(args, 1, 200))))
            } else if name == "tr_head"@ {
                Some(Ok(Call::HandleRead(id, 0, size_arg(args, 0, 50))))
            } else if name == "tr_tail"@ {
                Some(Ok(Call::HandleTail(id, size_arg(args, 0, 50))))
            } else if name == "tr_grep"@ {
                match text_arg(args, 0) {
                    Some(pattern) => Some(
                        Ok(Call::HandleGrep(id, pattern, size_arg(args, 1, 100))),
                    ),
                    None => refused("handle.grep(pattern)"@),
                }
            } else {
                Some(Ok(Call::HandleJson(id)))
            },
        }
    }
}

/// Reads a method of a result handle.
pub fn plan_handle(name: &str, args: &Vec<Argument>, receiver: Option<i64>) -> (r: Option<
    Result<HostCall, String>,
>)
    ensures
        family_call(r) == handle_call(name@, args@, receiver),
{
    let known = same(name, "tr_read") || same(name, "tr_head") || same(name, "tr_tail") || same(
        name,
        "tr_grep",
    ) || same(name, "tr_json");
    if !known {
        return None;
    }
    let id: u64 = match to_unsigned(receiver) {
        Some(id) => id,
        None => {
            return refuse("handle: id");
        },
    };
    if same(name, "tr_read") {
        Some(
            Ok(
                HostCall::HandleRead {
                    id,
                    offset: size_of_arg(args, 0, 0),
                    limit: size_of_arg(args, 1, 200),
                },
            ),
        )
    } else if same(name, "tr_head") {
        Some(Ok(HostCall::HandleRead { id, offset: 0, limit: size_of_arg(args, 0, 50) }))
    } else if same(name, "tr_tail") {
        Some(Ok(HostCall::HandleTail { id, limit: size_of_arg(args, 0, 50) }))
    } else if same(name, "tr_grep") {
        match text_of(args, 0) {
            Some(pattern) => Some(
                Ok(HostCall::HandleGrep { id, pattern, limit: size_of_arg(args, 1, 100) }),
            ),
            None => refuse("handle.grep(pattern)"),
        }
    } else {
        Some(Ok(HostCall::HandleJson { id }))
    }
}

/// What a program has at hand when it calls the host.
#[derive(Clone, Copy, Debug, PartialEq, Eq)]
pub struct Standing {
    /// Whether an agent runtime is attached.
    pub has_host: bool,
    pub cancelled: bool,
    pub max_output_bytes: usize,
    /// The number that the receiver of a method carries.
    pub receiver: Option<i64>,
}

/// The call that a name and arguments stand for, or the text of its refusal.
pub open spec fn planned(name: Seq<char>, args: Seq<Argument>, at: Standing) -> Result<
    Call,
    Seq<char>,
> {
    let max = at.max_output_bytes as nat;
    match (
        tool_call(name, args, max),
        batch_call(name, args, at.cancelled, max),
        worker_call(name, args, at.has_host, max),
        process_call(name, args, at.has_host, max),
        record_call(name, args, at.has_host, max),
        handle_call(name, args, at.receiver),
    ) {
        (Some(r), _, _, _, _, _) => r,
        (None, Some(r), _, _, _, _) => r,
        (None, None, Some(r), _, _, _) => r,
        (None, None, None, Some(r), _, _) => r,
        (None, None, None, None, Some(r), _) => r,
        (None, None, None, None, None, Some(r)) => r,
        (None, None, None, None, None, None) => Err("unknown mh function: "@ + name),
    }
}

/// Reads one call of a program: what it asks for, or why it is refused.
pub fn run_host_call(name: &str, args: &Vec<Argument>, at: Standing) -> (r: Result<HostCall, String>)
    ensures
        call_of(r) == planned(name@, args@, at),
{
    let max: usize = at.max_output_bytes;
    match plan_tool(name, args, max) {
        Some(r) => {
            return r;
        },
        None => {},
    }
    match plan_batch(name, args, at.cancelled, max) {
        Some(r) => {
            return r;
        },
        None => {},
    }
    match plan_worker(name, args, at.has_host, max) {
        Some(r) => {
            return r;
        },
        None => {},
    }
    match plan_process(name, args, at.has_host, max) {
        Some(r) => {
            return r;
        },
        None => {},
    }
    match plan_record(name, args, at.has_host, max) {
        Some(r) => {
            return r;
        },
        None => {},
    }
    match plan_handle(name, args, at.receiver) {
        Some(r) => {
            return r;
        },
        None => {},
    }
    let mut s = text("unknown mh function: ");
    s.append(name);
    Err(s)
}

/// Without an agent runtime no call on goals, workers, processes or isolated
/// workspaces goes through; each is refused by its own name.
pub proof fn law_orchestration_needs_a_host(name: Seq<char>, args: Seq<Argument>, at: Standing)
    requires
        is_worker_name(name) || is_process_name(name) || name == "integrate"@ || name
            == "discard"@,
        !at.has_host,
    ensures
        planned(name, args, at) == Err::<Call, Seq<char>>(no_host(name)),
{
    lemma_names_are_apart(name);
}

/// The names of the families have nothing in common.
proof fn lemma_names_are_apart(name: Seq<char>)
    ensures
        is_worker_name(name) || is_process_name(name) || name == "integrate"@ || name
            == "discard"@ ==> !(name == "tool"@ || name == "call_tool"@ || name == "read"@ || name
            == "write"@ || name == "edit"@ || name == "glob"@ || name == "grep"@ || name == "exec"@
            || name == "checkpoint"@ || name == "restore"@ || name == "batch"@),
        is_process_name(name) ==> !is_worker_name(name),
        name == "integrate"@ || name == "discard"@ ==> !is_worker_name(name) && !is_process_name(
            name,
        ),
{
    reveal_strlit("tool");
    reveal_strlit("call_tool");
    reveal_strlit("read");
    reveal_strlit("write");
    reveal_strlit("edit");
    reveal_strlit("glob");
    reveal_strlit("grep");
    reveal_strlit("exec");
    reveal_strlit("checkpoint");
    reveal_strlit("restore");
    reveal_strlit("batch");
    reveal_strlit("goal");
    reveal_strlit("finish");
    reveal_strlit("agent_spawn");
    reveal_strlit("agent_poll");
    reveal_strlit("agent_cancel");
    reveal_strlit("agent_join");
    reveal_strlit("agent_send");
    reveal_strlit("agent_list");
    reveal_strlit("delegate");
    reveal_strlit("delegate_batch");
    reveal_strlit("integrate");
    reveal_strlit("discard");
    reveal_strlit("process_spawn");
    reveal_strlit("process_poll");
    reveal_strlit("process_kill");
    reveal_strlit("process_wait");
    reveal_strlit("process_tail");
    reveal_strlit("process_write");
    reveal_strlit("process_list");
    if is_worker_name(name) || is_process_name(name) || name == "integrate"@ || name == "discard"@ {
        if name == "tool"@ || name == "read"@ || name == "edit"@ || name == "glob"@ || name
            == "grep"@ || name == "exec"@ {
            assert(name.len() == 4);
            assert(name[0] == 'g' ==> name[1] == 'l' || name[1] == 'r');
        }
        if name == "checkpoint"@ {
            assert(name[0] == 'c');
        }
        if name == "call_tool"@ {
            assert(name[0] == 'c');
        }
        if name == "restore"@ {
            assert(name[0] == 'r');
        }
        if name == "batch"@ {
            assert(name[0] == 'b');
        }
        if name == "write"@ {
            assert(name[0] == 'w');
        }
    }
    if is_process_name(name) {
        assert(name[0] == 'p');
    }
    if name == "integrate"@ {
        assert(name[0] == 'i');
    }
    if name == "discard"@ {
        assert(name[0] == 'd' && name[1] == 'i');
    }
    if is_worker_name(name) {
        assert(name[0] == 'g' || name[0] == 'f' || name[0] == 'a' || (name[0] == 'd' && name[1]
            == 'e'));
    }
}

/// The error that an output reports, where it reports one.
pub open spec fn reported_error(output: Seq<char>) -> Option<Seq<char>> {
    json_string(output, "/error"@)
}

/// The exception that a direct call ends in, where it does: an output that
/// reports an exhausted budget or a cancellation is no value to go on with.
pub open spec fn call_exception(output: Seq<char>) -> Option<Seq<char>> {
    match reported_error(output) {
        Some(e) => if contains(e, "budget exceeded"@) || contains(e, "cancelled"@) {
            Some(e)
        } else {
            None
        },
        None => None,
    }
}

/// Whether a direct call ends in an exception.
pub fn ensure_direct_host_call(output: &Json) -> (r: Result<(), String>)
    ensures
        match r {
            Ok(_) => call_exception(output.text@) is None,
            Err(e) => call_exception(output.text@) == Some(e@),
        },
        // An error of the host that names an exhausted budget or a cancellation is
        // thrown.
        forall|message: Seq<char>|
            output.text@ == #[trigger] error_json(message) ==> match r {
                Ok(_) => !contains(message, "budget exceeded"@) && !contains(
                    message,
                    "cancelled"@,
                ),
                Err(e) => e@ == message && (contains(message, "budget exceeded"@) || contains(
                    message,
                    "cancelled"@,
                )),
            },
{
    match string_at(output.text.as_str(), "/error") {
        None => Ok(()),
        Some(e) => {
            if contains_text(e.as_str(), "budget exceeded") || contains_text(
                e.as_str(),
                "cancelled",
            ) {
                Err(e)
            } else {
                Ok(())
            }
        },
    }
}

/// Whether an output reports a cancellation.
pub open spec fn tells_cancel(output: Json) -> bool {
    match reported_error(output.text@) {
        Some(e) => contains(e, "cancel"@),
        None => false,
    }
}

/// Whether a batch was cancelled: it was told so, or one of its outputs tells.
pub fn batch_cancelled(cancelled: bool, outputs: &Vec<Json>) -> (r: bool)
    ensures
        r == (cancelled || exists|i: int|
            0 <= i < outputs@.len() && tells_cancel(#[trigger] outputs@[i])),
{
    if cancelled {
        return true;
    }
    let mut i: usize = 0;
    while i < outputs.len()
        invariant
            i <= outputs.len(),
            forall|k: int| 0 <= k < i ==> !tells_cancel(#[trigger] outputs@[k]),
        decreases outputs.len() - i,
    {
        match string_at(outputs[i].text.as_str(), "/error") {
            Some(e) => {
                if contains_text(e.as_str(), "cancel") {
                    proof {
                        assert(tells_cancel(outputs@[i as int]));
                    }
                    return true;
                }
            },
            None => {},
        }
        i = i + 1;
    }
    false
}

/// Whether a tool may run in a batch.
pub open spec fn batch_safe(name: Seq<char>) -> bool {
    name == "read"@ || name == "grep"@ || name == "glob"@ || name == "exec"@
}

/// What a batch of a tool that may not run in one is answered, item by item.
pub open spec fn not_batch_safe(name: Seq<char>) -> Seq<char> {
    error_json("tool '"@ + name + "' is not batch-safe"@)
}

/// How a batch runs.
#[derive(Clone, Debug, PartialEq, Eq)]
pub enum BatchPlan {
    /// Every item is answered like this, and nothing runs.
    Refused(Vec<Json>),
    /// The items run, so many at a time.
    Run { concurrency: usize },
}

/// A batch that runs: which item is next, and what the items came to.
#[derive(Clone, Debug, PartialEq, Eq)]
pub struct Batch {
    pub next: usize,
    pub outputs: Vec<Json>,
}

impl Batch {
    /// A batch of which nothing has run.
    pub fn new(n: usize) -> (r: Batch)
        ensures
            r.next == 0,
            r.outputs@.len() == n,
            forall|i: int| 0 <= i < n ==> (#[trigger] r.outputs@[i]).text@ == "null"@,
    {
        let mut outputs: Vec<Json> = Vec::new();
        let mut i: usize = 0;
        while i < n
            invariant
                i <= n,
                outputs@.len() == i,
                forall|k: int| 0 <= k < i ==> (#[trigger] outputs@[k]).text@ == "null"@,
            decreases n - i,
        {
            outputs.push(Json::null());
            i = i + 1;
        }
        Batch { next: 0, outputs }
    }

    /// Hands out the next item, each of them once and in order.
    pub fn take(&mut self) -> (r: Option<usize>)
        ensures
            final(self).outputs@ == old(self).outputs@,
            match r {
                Some(i) => i == old(self).next < old(self).outputs@.len() && final(self).next
                    == i + 1,
                None => old(self).next >= old(self).outputs@.len() && final(self).next == old(
                    self,
                ).next,
            },
    {
        if self.next < self.outputs.len() {
            let i: usize = self.next;
            self.next = i + 1;
            Some(i)
        } else {
            None
        }
    }

    /// Keeps what an item came to, at the place of the item: whatever the order in
    /// which items end, their outputs are in the order of the input.
    pub fn put(&mut self, i: usize, output: Json)
        requires
            i < old(self).outputs@.len(),
        ensures
            final(self).next == old(self).next,
            final(self).outputs@ == old(self).outputs@.update(i as int, output),
    {
        self.outputs.set(i, output);
    }
}

/// The order in which two items of a batch end does not matter to its outputs.
pub proof fn law_batch_outputs_do_not_depend_on_timing(
    outputs: Seq<Json>,
    i: int,
    j: int,
    a: Json,
    b: Json,
)
    requires
        0 <= i < outputs.len(),
        0 <= j < outputs.len(),
        i != j,
    ensures
        outputs.update(i, a).update(j, b) == outputs.update(j, b).update(i, a),
        outputs.update(i, a).update(j, b)[i] == a,
        outputs.update(i, a).update(j, b)[j] == b,
{
    assert(outputs.update(i, a).update(j, b) =~= outputs.update(j, b).update(i, a));
}

/// How a batch of `n` items runs: a tool that is not batch-safe is refused item
/// by item; else at least one and at most `max_parallel` items run at a time.
pub fn execute_batch(name: &str, n: usize, max_parallel: usize) -> (r: BatchPlan)
    ensures
        match r {
            BatchPlan::Refused(outputs) => !batch_safe(name@) && outputs@.len() == n && forall|
                i: int,
            |
                0 <= i < n ==> (#[trigger] outputs@[i]).text@ == not_batch_safe(name@),
            BatchPlan::Run { concurrency } => batch_safe(name@) && concurrency as nat == (
            if max_parallel == 0 {
                if n == 0 {
                    0nat
                } else {
                    1nat
                }
            } else if max_parallel <= n {
                max_parallel as nat
            } else {
                n as nat
            }),
        },
{
    let safe = same(name, "read") || same(name, "grep") || same(name, "glob") || same(name, "exec");
    if !safe {
        let mut outputs: Vec<Json> = Vec::new();
        let mut i: usize = 0;
        while i < n
            invariant
                i <= n,
                outputs@.len() == i,
                forall|k: int|
                    0 <= k < i ==> (#[trigger] outputs@[k]).text@ == not_batch_safe(name@),
            decreases n - i,
        {
            let mut message = text("tool '");
            message.append(name);
            message.append("' is not batch-safe");
            let mut s = text("{\"error\":");
            s.append(quote(message.as_str()).as_str());
            s.append("}");
            outputs.push(Json { text: s });
            i = i + 1;
        }
        return BatchPlan::Refused(outputs);
    }
    let wanted: usize = if max_parallel == 0 {
        1
    } else {
        max_parallel
    };
    let concurrency: usize = if wanted <= n {
        wanted
    } else {
        n
    };
    BatchPlan::Run { concurrency }
}

/// A host error under the name of the call, unless the host named it already.
pub open spec fn named_error(name: Seq<char>, error: Seq<char>) -> Seq<char> {
    if has_prefix(error, name) {
        error
    } else {
        name + ": "@ + error
    }
}

/// A host error under the name of the call.
pub fn host_error(name: &str, error: &str) -> (r: String)
    ensures
        r@ == named_error(name@, error@),
{
    if starts_with(error, name) {
        text(error)
    } else {
        let mut s = text(name);
        s.append(": ");
        s.append(error);
        s
    }
}

/// A host error is named once, however often it passes a border.
pub proof fn law_host_errors_are_named_once(name: Seq<char>, error: Seq<char>)
    ensures
        has_prefix(named_error(name, error), name),
        named_error(name, named_error(name, error)) == named_error(name, error),
{
    if !has_prefix(error, name) {
        let once = named_error(name, error);
        assert(once.subrange(0, name.len() as int) =~= name);
    }
}

/// Whether an entry of a batch is that of a worker that did not start: one of
/// no task and no agent.
pub open spec fn never_started(entry: DelegateResult) -> bool {
    entry.task_id.0 == 0 && entry.agent.0 == 0
}

/// Whether `shown` is what a program sees of an entry of the batch that it called
/// as `name`. Where the worker did not start the error is under the name of the
/// call, and nothing else differs.
pub open spec fn shows_entry(
    name: Seq<char>,
    entry: DelegateResult,
    shown: DelegateResult,
) -> bool {
    if never_started(entry) {
        &&& shown.summary@ == named_error(name, entry.summary@)
        &&& shown == (DelegateResult { summary: shown.summary, ..entry })
    } else {
        shown == entry
    }
}

/// What a program sees of the batch that it called as `name`: the results in
/// order, with the error of each worker that did not start under the name of
/// the call.
pub fn batch_answer(name: &str, results: Vec<DelegateResult>) -> (r: Vec<DelegateResult>)
    ensures
        r@.len() == results@.len(),
        forall|i: int|
            0 <= i < results@.len() ==> shows_entry(name@, results@[i], #[trigger] r@[i]),
{
    let ghost all = results@;
    let mut out: Vec<DelegateResult> = Vec::new();
    for entry in iter: results
        invariant
            iter.seq() == all,
            out@.len() == iter.index(),
            forall|i: int| 0 <= i < out@.len() ==> shows_entry(name@, all[i], #[trigger] out@[i]),
    {
        if entry.task_id.0 == 0 && entry.agent.0 == 0 {
            let summary = host_error(name, entry.summary.as_str());
            out.push(
                DelegateResult {
                    task_id: entry.task_id,
                    agent: entry.agent,
                    ok: entry.ok,
                    summary,
                    base_revision: entry.base_revision,
                    final_revision: entry.final_revision,
                    changed: entry.changed,
                    workspace: entry.workspace,
                    evidence: entry.evidence,
                    findings: entry.findings,
                },
            );
        } else {
            out.push(entry);
        }
    }
    out
}

/// What a program sees of the finish that it called as `name`: the verdict as a
/// value, refused or not. Only an error of the host is thrown.
pub fn finish_answer(name: &str, outcome: Result<FinishVerdict, String>) -> (r: Result<
    Json,
    String,
>)
    ensures
        match outcome {
            Ok(verdict) => r matches Ok(value) && value.text@ == verdict.answer_json(),
            Err(error) => r matches Err(thrown) && thrown@ == named_error(name@, error@),
        },
{
    match outcome {
        Ok(verdict) => Ok(verdict.answer()),
        Err(error) => Err(host_error(name, error.as_str())),
    }
}

/// What is thrown where the fields of a goal update could not be read.
pub fn invalid_goal_update(error: &str) -> (r: String)
    ensures
        r@ == "goal: invalid update: "@ + error@
            + ". objective is one string; acceptanceCriteria/completed/pending/blockers/decisions/findings/nextActions are arrays whose entries may be plain strings; failedApproaches entries need {approach, reason}"@,
{
    let mut s = text("goal: invalid update: ");
    s.append(error);
    s.append(
        ". objective is one string; acceptanceCriteria/completed/pending/blockers/decisions/findings/nextActions are arrays whose entries may be plain strings; failedApproaches entries need {approach, reason}",
    );
    s
}

/// What is thrown where the argument of a call could not be read.
pub fn invalid_argument(name: &str, what: &str, error: &str) -> (r: String)
    ensures
        r@ == name@ + ": invalid "@ + what@ + ": "@ + error@,
{
    let mut s = text(name);
    s.append(": invalid ");
    s.append(what);
    s.append(": ");
    s.append(error);
    s
}

} // verus!
