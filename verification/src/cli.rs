//! The command line: what is asked for, and what is shown.
use vstd::prelude::*;
use vstd::string::StringExecFns;
use crate::agent::AgentError;
use crate::identity::{ExecutionId, ProcessId, TaskId};
use crate::session::SessionError;
use crate::text::{decimal, decimal_text, head, is_blank, join, joined, lines, lines_text, number_of, parse_u64, same, take_chars, text, to_chars, trim, trimmed, views, words};

verus! {

/// The subcommand that a detached launch runs this program with.
pub const DETACHED_RUNNER: &'static str = "__run-detached";

/// Why a command failed.
#[derive(Clone, Debug, PartialEq, Eq)]
pub enum CliError {
    Io(String),
    Session(SessionError),
    Agent(AgentError),
    Model(String),
    Usage(String),
    NoTask(u64),
    Cancelled,
}

impl CliError {
    /// The message of the error.
    pub open spec fn text(self) -> Seq<char> {
        match self {
            CliError::Io(message) => message@,
            CliError::Session(error) => error.text(),
            CliError::Agent(error) => error.text(),
            CliError::Model(message) => message@,
            CliError::Usage(message) => message@,
            CliError::NoTask(id) => "no task "@ + decimal(id as nat) + " in this session"@,
            CliError::Cancelled => "cancelled"@,
        }
    }

    /// The message of the error.
    pub fn message(&self) -> (r: String)
        ensures
            r@ == self.text(),
    {
        match self {
            CliError::Io(message) => message.clone(),
            CliError::Session(error) => error.message(),
            CliError::Agent(error) => error.message(),
            CliError::Model(message) => message.clone(),
            CliError::Usage(message) => message.clone(),
            CliError::NoTask(id) => {
                let mut s = text("no task ");
                s.append(decimal_text(*id).as_str());
                s.append(" in this session");
                s
            },
            CliError::Cancelled => text("cancelled"),
        }
    }

    /// The status that the program exits with.
    pub fn exit_code(&self) -> (r: u8)
        ensures
            r == if self is Cancelled {
                130u8
            } else {
                1u8
            },
    {
        match self {
            CliError::Cancelled => 130,
            _ => 1,
        }
    }

    /// The error of a command that ran an agent: a cancellation is its own.
    pub fn of_agent(error: AgentError) -> (r: CliError)
        ensures
            r == if error is Cancelled {
                CliError::Cancelled
            } else {
                CliError::Agent(error)
            },
    {
        match error {
            AgentError::Cancelled => CliError::Cancelled,
            error => CliError::Agent(error),
        }
    }
}

/// What a lost run is asked to account for.
#[derive(Clone, Copy, Debug, PartialEq, Eq, Structural)]
pub enum Resource {
    Execution(ExecutionId),
    Process(ProcessId),
}

/// What is asked for on the command line.
#[derive(Clone, Debug, PartialEq, Eq)]
pub enum Command {
    Repl,
    Help,
    Version,
    Run { task: String, detach: bool },
    Resume(Option<TaskId>),
    Attach(TaskId),
    Tasks,
    Inspect(TaskId),
    Steer { task: TaskId, message: String },
    Cancel(Option<TaskId>),
    Recover { task: TaskId, resource: Resource, reason: String },
    Sessions,
    Detached(TaskId),
}

/// What is asked for, as plain values.
pub enum Asked {
    Repl,
    Help,
    Version,
    Run(Seq<char>, bool),
    Resume(Option<TaskId>),
    Attach(TaskId),
    Tasks,
    Inspect(TaskId),
    Steer(TaskId, Seq<char>),
    Cancel(Option<TaskId>),
    Recover(TaskId, Resource, Seq<char>),
    Sessions,
    Detached(TaskId),
}

impl View for Command {
    type V = Asked;

    open spec fn view(&self) -> Asked {
        match *self {
            Command::Repl => Asked::Repl,
            Command::Help => Asked::Help,
            Command::Version => Asked::Version,
            Command::Run { task, detach } => Asked::Run(task@, detach),
            Command::Resume(task) => Asked::Resume(task),
            Command::Attach(task) => Asked::Attach(task),
            Command::Tasks => Asked::Tasks,
            Command::Inspect(task) => Asked::Inspect(task),
            Command::Steer { task, message } => Asked::Steer(task, message@),
            Command::Cancel(task) => Asked::Cancel(task),
            Command::Recover { task, resource, reason } => Asked::Recover(task, resource, reason@),
            Command::Sessions => Asked::Sessions,
            Command::Detached(task) => Asked::Detached(task),
        }
    }
}

/// What is asked for, or how it is meant to be asked for.
pub open spec fn asked_of(r: Result<Command, CliError>) -> Option<Result<Asked, Seq<char>>> {
    match r {
        Ok(command) => Some(Ok(command@)),
        Err(CliError::Usage(message)) => Some(Err(message@)),
        Err(_) => None,
    }
}

/// The task that a text names.
pub open spec fn task_named(raw: Seq<char>) -> Result<TaskId, Seq<char>> {
    match number_of(raw) {
        Ok(n) => Ok(TaskId(n as u64)),
        Err(_) => Err("`"@ + raw + "` is not a task id"@),
    }
}

/// The task that a text names.
pub fn parse_task_id(raw: &str) -> (r: Result<TaskId, CliError>)
    ensures
        match r {
            Ok(task) => task_named(raw@) == Ok::<TaskId, Seq<char>>(task),
            Err(e) => e matches CliError::Usage(m) && task_named(raw@) == Err::<TaskId, Seq<char>>(
                m@,
            ),
        },
{
    match parse_u64(raw) {
        Ok(n) => Ok(TaskId(n)),
        Err(_) => {
            let mut s = text("`");
            s.append(raw);
            s.append("` is not a task id");
            Err(CliError::Usage(s))
        },
    }
}

/// The words of a request that are not the flag to detach.
pub open spec fn without_detach(args: Seq<Seq<char>>) -> Seq<Seq<char>>
    decreases args.len(),
{
    if args.len() == 0 {
        Seq::empty()
    } else if args.last() == "--detach"@ {
        without_detach(args.drop_last())
    } else {
        without_detach(args.drop_last()).push(args.last())
    }
}

/// A request to run a task.
pub open spec fn run_asked(args: Seq<Seq<char>>) -> Result<Asked, Seq<char>> {
    let task = joined(without_detach(args), " "@);
    if trimmed(task).len() == 0 {
        Err("run needs a task"@)
    } else {
        Ok(Asked::Run(task, args.contains("--detach"@)))
    }
}

/// At most one task, as some requests take.
pub open spec fn optional_task(args: Seq<Seq<char>>, usage: Seq<char>) -> Result<
    Option<TaskId>,
    Seq<char>,
> {
    if args.len() == 0 {
        Ok(None)
    } else if args.len() == 1 {
        match task_named(args[0]) {
            Ok(task) => Ok(Some(task)),
            Err(m) => Err(m),
        }
    } else {
        Err(usage)
    }
}

/// Exactly one task, as some requests take.
pub open spec fn one_task(args: Seq<Seq<char>>, usage: Seq<char>) -> Result<TaskId, Seq<char>> {
    if args.len() == 1 {
        task_named(args[0])
    } else {
        Err(usage)
    }
}

/// A request to steer a task.
pub open spec fn steer_asked(args: Seq<Seq<char>>) -> Result<Asked, Seq<char>> {
    if args.len() < 2 {
        Err("steer needs a task id and a message"@)
    } else {
        match task_named(args[0]) {
            Ok(task) => Ok(Asked::Steer(task, joined(args.skip(1), " "@))),
            Err(m) => Err(m),
        }
    }
}

/// A request to account for what a lost run left behind.
pub open spec fn recover_asked(args: Seq<Seq<char>>) -> Result<Asked, Seq<char>> {
    if args.len() < 3 {
        Err("recover needs <task-id> <execution|process> <resource-id> <reason>"@)
    } else if args.len() == 3 {
        Err("recover needs an audit reason"@)
    } else {
        match (task_named(args[0]), number_of(args[2])) {
            (Err(m), _) => Err(m),
            (Ok(_), Err(_)) => Err("`"@ + args[2] + "` is not a resource id"@),
            (Ok(task), Ok(n)) => if args[1] == "execution"@ {
                Ok(
                    Asked::Recover(
                        task,
                        Resource::Execution(ExecutionId(n as u64)),
                        joined(args.skip(3), " "@),
                    ),
                )
            } else if args[1] == "process"@ {
                Ok(
                    Asked::Recover(
                        task,
                        Resource::Process(ProcessId(n as u64)),
                        joined(args.skip(3), " "@),
                    ),
                )
            } else {
                Err("recover resource kind must be `execution` or `process`"@)
            },
        }
    }
}

/// What the words of a command line ask for.
pub open spec fn asked(args: Seq<Seq<char>>) -> Result<Asked, Seq<char>> {
    if args.len() == 0 {
        Ok(Asked::Repl)
    } else {
        let first = args[0];
        let rest = args.skip(1);
        if first == "--help"@ || first == "-h"@ {
            Ok(Asked::Help)
        } else if first == "--version"@ || first == "-V"@ {
            Ok(Asked::Version)
        } else if first == "run"@ {
            run_asked(rest)
        } else if first == "resume"@ {
            match optional_task(rest, "resume takes at most one task id"@) {
                Ok(task) => Ok(Asked::Resume(task)),
                Err(m) => Err(m),
            }
        } else if first == "attach"@ {
            match one_task(rest, "attach needs one task id"@) {
                Ok(task) => Ok(Asked::Attach(task)),
                Err(m) => Err(m),
            }
        } else if first == "tasks"@ && args.len() == 1 {
            Ok(Asked::Tasks)
        } else if first == "inspect"@ {
            match one_task(rest, "inspect needs one task id"@) {
                Ok(task) => Ok(Asked::Inspect(task)),
                Err(m) => Err(m),
            }
        } else if first == "steer"@ {
            steer_asked(rest)
        } else if first == "cancel"@ {
            match optional_task(rest, "cancel takes at most one task id"@) {
                Ok(task) => Ok(Asked::Cancel(task)),
                Err(m) => Err(m),
            }
        } else if first == "recover"@ {
            recover_asked(rest)
        } else if first == "sessions"@ && args.len() == 1 {
            Ok(Asked::Sessions)
        } else if first == "__run-detached"@ {
            match one_task(rest, "__run-detached needs one task id"@) {
                Ok(task) => Ok(Asked::Detached(task)),
                Err(m) => Err(m),
            }
        } else {
            Ok(Asked::Run(joined(args, " "@), false))
        }
    }
}

/// The words from a place on.
fn rest_of(args: &Vec<String>, from: usize) -> (r: Vec<String>)
    requires
        from <= args.len(),
    ensures
        views(r@) == views(args@).skip(from as int),
{
    let mut out: Vec<String> = Vec::new();
    let mut i: usize = from;
    while i < args.len()
        invariant
            from <= i <= args.len(),
            views(out@) == views(args@).subrange(from as int, i as int),
        decreases args.len() - i,
    {
        let ghost before = out@;
        out.push(args[i].clone());
        proof {
            assert(views(out@) =~= views(before).push(args@[i as int]@));
            assert(views(args@).subrange(from as int, i + 1) =~= views(args@).subrange(
                from as int,
                i as int,
            ).push(views(args@)[i as int]));
        }
        i = i + 1;
    }
    proof {
        assert(views(args@).subrange(from as int, i as int) =~= views(args@).skip(from as int));
    }
    out
}

fn usage(message: &str) -> (r: Result<Command, CliError>)
    ensures
        asked_of(r) == Some(Err::<Asked, Seq<char>>(message@)),
{
    Err(CliError::Usage(text(message)))
}

fn cmd_run(args: &Vec<String>) -> (r: Result<Command, CliError>)
    ensures
        asked_of(r) == Some(run_asked(views(args@))),
{
    let ghost all = views(args@);
    let mut kept: Vec<String> = Vec::new();
    let mut detach = false;
    let mut i: usize = 0;
    proof {
        assert(all.take(0) =~= Seq::<Seq<char>>::empty());
        assert(views(kept@) =~= without_detach(all.take(0)));
    }
    while i < args.len()
        invariant
            i <= args.len(),
            all == views(args@),
            views(kept@) == without_detach(all.take(i as int)),
            detach == (exists|k: int| 0 <= k < i && #[trigger] all[k] == "--detach"@),
        decreases args.len() - i,
    {
        proof {
            assert(all.take(i + 1).drop_last() =~= all.take(i as int));
            assert(all.take(i + 1).last() == args@[i as int]@);
        }
        if same(args[i].as_str(), "--detach") {
            proof {
                assert(all[i as int] == "--detach"@);
            }
            detach = true;
        } else {
            let ghost before = kept@;
            kept.push(args[i].clone());
            proof {
                assert(views(kept@) =~= views(before).push(args@[i as int]@));
            }
        }
        i = i + 1;
    }
    proof {
        assert(all.take(i as int) =~= all);
        assert(detach == all.contains("--detach"@));
    }
    let task = join(&kept, " ");
    if is_blank(task.as_str()) {
        return usage("run needs a task");
    }
    Ok(Command::Run { task, detach })
}

fn optional_id(args: &Vec<String>, how: &str) -> (r: Result<Option<TaskId>, CliError>)
    ensures
        match r {
            Ok(task) => optional_task(views(args@), how@) == Ok::<Option<TaskId>, Seq<char>>(task),
            Err(e) => e matches CliError::Usage(m) && optional_task(views(args@), how@) == Err::<
                Option<TaskId>,
                Seq<char>,
            >(m@),
        },
{
    if args.len() == 0 {
        Ok(None)
    } else if args.len() == 1 {
        match parse_task_id(args[0].as_str()) {
            Ok(task) => Ok(Some(task)),
            Err(e) => Err(e),
        }
    } else {
        Err(CliError::Usage(text(how)))
    }
}

fn one_id(args: &Vec<String>, how: &str) -> (r: Result<TaskId, CliError>)
    ensures
        match r {
            Ok(task) => one_task(views(args@), how@) == Ok::<TaskId, Seq<char>>(task),
            Err(e) => e matches CliError::Usage(m) && one_task(views(args@), how@) == Err::<
                TaskId,
                Seq<char>,
            >(m@),
        },
{
    if args.len() == 1 {
        parse_task_id(args[0].as_str())
    } else {
        Err(CliError::Usage(text(how)))
    }
}

fn cmd_steer(args: &Vec<String>) -> (r: Result<Command, CliError>)
    ensures
        asked_of(r) == Some(steer_asked(views(args@))),
{
    if args.len() < 2 {
        return usage("steer needs a task id and a message");
    }
    match parse_task_id(args[0].as_str()) {
        Ok(task) => {
            let words = rest_of(args, 1);
            Ok(Command::Steer { task, message: join(&words, " ") })
        },
        Err(e) => Err(e),
    }
}

fn cmd_recover(args: &Vec<String>) -> (r: Result<Command, CliError>)
    ensures
        asked_of(r) == Some(recover_asked(views(args@))),
{
    if args.len() < 3 {
        return usage("recover needs <task-id> <execution|process> <resource-id> <reason>");
    }
    if args.len() == 3 {
        return usage("recover needs an audit reason");
    }
    let task = match parse_task_id(args[0].as_str()) {
        Ok(task) => task,
        Err(e) => {
            return Err(e);
        },
    };
    let number: u64 = match parse_u64(args[2].as_str()) {
        Ok(n) => n,
        Err(_) => {
            let mut s = text("`");
            s.append(args[2].as_str());
            s.append("` is not a resource id");
            return Err(CliError::Usage(s));
        },
    };
    let resource = if same(args[1].as_str(), "execution") {
        Resource::Execution(ExecutionId(number))
    } else if same(args[1].as_str(), "process") {
        Resource::Process(ProcessId(number))
    } else {
        return usage("recover resource kind must be `execution` or `process`");
    };
    let words = rest_of(args, 3);
    Ok(Command::Recover { task, resource, reason: join(&words, " ") })
}

/// What the words of a command line ask for. Anything that is no command is the
/// task itself.
pub fn parse_command(args: &Vec<String>) -> (r: Result<Command, CliError>)
    ensures
        asked_of(r) == Some(asked(views(args@))),
{
    if args.len() == 0 {
        return Ok(Command::Repl);
    }
    let first = args[0].as_str();
    let rest = rest_of(args, 1);
    if same(first, "--help") || same(first, "-h") {
        Ok(Command::Help)
    } else if same(first, "--version") || same(first, "-V") {
        Ok(Command::Version)
    } else if same(first, "run") {
        cmd_run(&rest)
    } else if same(first, "resume") {
        match optional_id(&rest, "resume takes at most one task id") {
            Ok(task) => Ok(Command::Resume(task)),
            Err(e) => Err(e),
        }
    } else if same(first, "attach") {
        match one_id(&rest, "attach needs one task id") {
            Ok(task) => Ok(Command::Attach(task)),
            Err(e) => Err(e),
        }
    } else if same(first, "tasks") && args.len() == 1 {
        Ok(Command::Tasks)
    } else if same(first, "inspect") {
        match one_id(&rest, "inspect needs one task id") {
            Ok(task) => Ok(Command::Inspect(task)),
            Err(e) => Err(e),
        }
    } else if same(first, "steer") {
        cmd_steer(&rest)
    } else if same(first, "cancel") {
        match optional_id(&rest, "cancel takes at most one task id") {
            Ok(task) => Ok(Command::Cancel(task)),
            Err(e) => Err(e),
        }
    } else if same(first, "recover") {
        cmd_recover(&rest)
    } else if same(first, "sessions") && args.len() == 1 {
        Ok(Command::Sessions)
    } else if same(first, DETACHED_RUNNER) {
        match one_id(&rest, "__run-detached needs one task id") {
            Ok(task) => Ok(Command::Detached(task)),
            Err(e) => Err(e),
        }
    } else {
        Ok(Command::Run { task: join(args, " "), detach: false })
    }
}

/// The first line of a text, without the white space around it.
pub open spec fn first_line(s: Seq<char>) -> Seq<char> {
    if lines(s).len() == 0 {
        Seq::empty()
    } else {
        trimmed(lines(s)[0])
    }
}

/// The first line of a text, cut to a width; an ellipsis stands for anything
/// that is not shown.
pub open spec fn summary_of(s: Seq<char>, max: nat) -> Seq<char> {
    let line = first_line(s);
    if line.len() <= max {
        if lines(s).len() >= 2 {
            line + " …"@
        } else {
            line
        }
    } else {
        head(line, max) + " …"@
    }
}

/// The first line of a text, cut to a width.
pub fn summarize(s: &str, max: usize) -> (r: String)
    ensures
        r@ == summary_of(s@, max as nat),
{
    let all = lines_text(s);
    proof {
        assert(views(all@).len() == all@.len());
    }
    let mut line = if all.len() == 0 {
        text("")
    } else {
        trim(all[0].as_str())
    };
    proof {
        reveal_strlit("");
        assert(line@ =~= first_line(s@));
    }
    let width: usize = to_chars(line.as_str()).len();
    if width <= max {
        if all.len() >= 2 {
            line.append(" …");
        }
        line
    } else {
        let mut cut = take_chars(line.as_str(), max);
        cut.append(" …");
        cut
    }
}

} // verus!
