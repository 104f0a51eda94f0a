//! What the console decides: the lines that are typed, the answers that are
//! given, and the launch of a detached run.
use vstd::prelude::*;
use vstd::string::StringExecFns;
use crate::agent::{AgentError, TaskOutcome};
use crate::cli::{asked, asked_of, parse_command, Asked, CliError, Command, Resource};
use crate::display::{left, lead, one, print_task_report, print_task_view, push_line, report_lines, report_outcome, right, task_lines};
use crate::identity::TaskId;
use crate::ptc::diagnostics::{lower_text, lowered};
use crate::ptc::prelude::{below, description_of, identity_of, join_path, Prelude};
use crate::ptc::trust::TrustDecision;
use crate::runtime::TaskReport;
use crate::session::{SessionError, TaskView};
use crate::text::{copy_strings, decimal, decimal_text, lines, lines_text, opt_view, same, size_text, text, to_chars, trim, trimmed, views, words, words_text};

verus! {

/// How long a launch waits for a detached run to be admitted.
pub const ADMISSION_TIMEOUT_MS: u64 = 5_000;

/// How long a launch sleeps between two looks at a detached run.
pub const ADMISSION_POLL_MS: u64 = 10;

/// What a detached run writes once it is admitted.
pub const ADMITTED: &'static str = "admitted\n";

/// How long the console waits for a line before it looks at the agent again.
pub const INPUT_POLL_MS: u64 = 25;

/// What the console says when it opens.
pub const GREETING: &'static str = "mh — PTC coding agent. Type /help for commands.";

/// What stands before a line that is typed.
pub const PROMPT: &'static str = "mh> ";

/// What can be typed at the console.
pub const CONSOLE_HELP: &'static str = "/resume          resume the workspace session
/tasks           list durable tasks
/inspect [<id>]  full durable state of a task (default: this session's)
/cancel [<id>]   request durable cancellation
/session         show session state
/help            this list
/quit            exit (interrupts an active agent)

Any other line starts a task, or steers the one already running.";

/// How the program is used.
pub const HELP: &'static str = "mh — durable PTC coding agent

USAGE:
  mh                              open an interactive session
  mh \"fix the tests\"              run a task in the foreground
  mh run <task> [--detach]        register and request task admission
  mh resume [<task-id>]           acquire workspace ownership and continue
  mh attach <task-id>             show an observation-only task snapshot
  mh tasks                        list durable tasks without mutation
  mh inspect <task-id>            full read-only durable state
  mh steer <task-id> <message>    queue durable steering with a receipt
  mh cancel [<task-id>]           queue durable cancellation with a receipt
  mh recover <task-id> <execution|process> <id> <reason>
  mh sessions                     inspect the workspace session
  mh --help | --version

ENVIRONMENT:
  MH_API_KEY or OPENAI_API_KEY
  MH_BASE_URL             Responses API root; default: https://api.openai.com/v1
  MH_MODEL                default: gpt-4.1-mini
  MH_MODEL_TIMEOUT_SECS   default: 300";

/// What is shown of every task in a list.
pub open spec fn all_reports(reports: Seq<TaskReport>) -> Seq<Seq<char>>
    decreases reports.len(),
{
    if reports.len() == 0 {
        Seq::empty()
    } else {
        all_reports(reports.drop_last()) + report_lines(reports.last())
    }
}

/// The head of a list of tasks.
pub open spec fn list_heading() -> Seq<char> {
    right("ID"@, 4) + "  "@ + left("STATUS"@, 14) + "  "@ + right("WINDOW"@, 6) + "  OBJECTIVE"@
}

/// What is shown of the tasks of a session.
pub open spec fn list_lines(reports: Seq<TaskReport>) -> Seq<Seq<char>> {
    if reports.len() == 0 {
        seq!["no tasks"@]
    } else {
        seq![list_heading()] + all_reports(reports)
    }
}

/// Moves lines to the end of others.
fn push_lines(out: &mut Vec<String>, more: &Vec<String>)
    ensures
        views(final(out)@) == views(old(out)@) + views(more@),
{
    let ghost was = views(out@);
    let ghost all = views(more@);
    let mut i: usize = 0;
    proof {
        assert(was + all.take(0) =~= was);
    }
    while i < more.len()
        invariant
            i <= more.len(),
            all == views(more@),
            views(out@) == was + all.take(i as int),
        decreases more.len() - i,
    {
        push_line(out, more[i].clone());
        proof {
            assert(was + all.take(i + 1) =~= (was + all.take(i as int)).push(all[i as int]));
        }
        i = i + 1;
    }
    proof {
        assert(all.take(i as int) =~= all);
    }
}

/// What is shown of the tasks of a session.
pub fn cmd_tasks(reports: &Vec<TaskReport>) -> (r: Vec<String>)
    ensures
        views(r@) == list_lines(reports@),
{
    if reports.len() == 0 {
        return one(text("no tasks"));
    }
    let mut heading = crate::display::right_text("ID", 4);
    heading.append("  ");
    heading.append(crate::display::left_text("STATUS", 14).as_str());
    heading.append("  ");
    heading.append(crate::display::right_text("WINDOW", 6).as_str());
    heading.append("  OBJECTIVE");
    let mut out = one(heading);
    let ghost all = reports@;
    let ghost first = seq![list_heading()];
    let mut i: usize = 0;
    proof {
        assert(views(out@) =~= first + all_reports(all.take(0)));
    }
    while i < reports.len()
        invariant
            i <= reports.len(),
            all == reports@,
            views(out@) == first + all_reports(all.take(i as int)),
        decreases reports.len() - i,
    {
        let more = print_task_report(&reports[i]);
        push_lines(&mut out, &more);
        proof {
            assert(all.take(i + 1).drop_last() =~= all.take(i as int));
            assert(views(out@) =~= first + all_reports(all.take(i + 1)));
        }
        i = i + 1;
    }
    proof {
        assert(all.take(i as int) =~= all);
    }
    out
}

/// Whether a place in a list is the first that holds a task.
pub open spec fn first_view(tasks: Seq<TaskView>, task: TaskId, i: int) -> bool {
    &&& 0 <= i < tasks.len()
    &&& tasks[i].task_id == task
    &&& forall|k: int| 0 <= k < i ==> (#[trigger] tasks[k]).task_id != task
}

/// What is shown of one task of a session.
pub fn cmd_inspect(tasks: &Vec<TaskView>, task: TaskId) -> (r: Result<Vec<String>, CliError>)
    ensures
        match r {
            Ok(shown) => exists|i: int| #[trigger]
                first_view(tasks@, task, i) && views(shown@) == task_lines(tasks@[i]),
            Err(e) => e == CliError::NoTask(task.0) && forall|k: int|
                0 <= k < tasks@.len() ==> (#[trigger] tasks@[k]).task_id != task,
        },
{
    let mut i: usize = 0;
    while i < tasks.len()
        invariant
            i <= tasks.len(),
            forall|k: int| 0 <= k < i ==> (#[trigger] tasks@[k]).task_id != task,
        decreases tasks.len() - i,
    {
        if tasks[i].task_id.0 == task.0 {
            proof {
                assert(first_view(tasks@, task, i as int));
            }
            return Ok(print_task_view(&tasks[i]));
        }
        i = i + 1;
    }
    Err(CliError::NoTask(task.0))
}

/// What is said below a task that is watched.
pub fn attach_note(task: TaskId) -> (r: String)
    ensures
        r@ == "[attach] observation only; use `mh resume "@ + decimal(task.0 as nat)
            + "` to compete for runner ownership."@,
{
    let mut s = lead("[attach] observation only; use `mh resume ", decimal_text(task.0).as_str());
    s.append("` to compete for runner ownership.");
    s
}

/// The receipt for a request that was put in the journal of a task.
#[derive(Clone, Debug, PartialEq, Eq)]
pub struct Receipt {
    pub task_id: TaskId,
    pub command_id: String,
    pub seq: u64,
    pub cache_warning: Option<String>,
}

/// The lines that a receipt is shown as.
pub open spec fn receipt_lines(tag: Seq<char>, what: Seq<char>, receipt: Receipt) -> Seq<Seq<char>> {
    let first = tag + what + " for task "@ + decimal(receipt.task_id.0 as nat) + " as command "@
        + receipt.command_id@ + " (event "@ + decimal(receipt.seq as nat) + ")"@;
    match receipt.cache_warning {
        Some(warning) => seq![first, tag + "warning: "@ + warning@],
        None => seq![first],
    }
}

fn receipt_texts(tag: &str, what: &str, receipt: &Receipt) -> (r: Vec<String>)
    ensures
        views(r@) == receipt_lines(tag@, what@, *receipt),
{
    let mut first = lead(tag, what);
    first.append(" for task ");
    first.append(decimal_text(receipt.task_id.0).as_str());
    first.append(" as command ");
    first.append(receipt.command_id.as_str());
    first.append(" (event ");
    first.append(decimal_text(receipt.seq).as_str());
    first.append(")");
    let mut out = one(first);
    match &receipt.cache_warning {
        Some(warning) => {
            let mut s = lead(tag, "warning: ");
            s.append(warning.as_str());
            push_line(&mut out, s);
        },
        None => {},
    }
    proof {
        assert(views(out@) =~= receipt_lines(tag@, what@, *receipt));
    }
    out
}

/// What is said once steering is in the journal.
pub fn steering_receipt(receipt: &Receipt) -> (r: Vec<String>)
    ensures
        views(r@) == receipt_lines("[steering] "@, "queued"@, *receipt),
{
    receipt_texts("[steering] ", "queued", receipt)
}

/// What is said once a request to cancel is in the journal.
pub fn cancel_receipt(receipt: &Receipt) -> (r: Vec<String>)
    ensures
        views(r@) == receipt_lines("[cancel] "@, "requested"@, *receipt),
{
    receipt_texts("[cancel] ", "requested", receipt)
}

/// The kind and the number of what a lost run left behind.
pub open spec fn resource_shown(resource: Resource) -> Seq<char> {
    match resource {
        Resource::Execution(id) => "execution "@ + decimal(id.0 as nat),
        Resource::Process(id) => "process "@ + decimal(id.0 as nat),
    }
}

/// What is said once a lost run is accounted for.
pub fn recovery_note(task: TaskId, resource: Resource, seq: u64) -> (r: String)
    ensures
        r@ == "[recovery] resolved "@ + resource_shown(resource) + " for task "@ + decimal(
            task.0 as nat,
        ) + " (event "@ + decimal(seq as nat) + ")"@,
{
    let shown = match resource {
        Resource::Execution(id) => lead("execution ", decimal_text(id.0).as_str()),
        Resource::Process(id) => lead("process ", decimal_text(id.0).as_str()),
    };
    let mut s = lead("[recovery] resolved ", shown.as_str());
    s.append(" for task ");
    s.append(decimal_text(task.0).as_str());
    s.append(" (event ");
    s.append(decimal_text(seq).as_str());
    s.append(")");
    s
}

/// Where the output of a detached task goes.
pub fn task_log_path(workspace: &str, task: TaskId) -> (r: String)
    ensures
        r@ == below(workspace@, ".mh/tasks/"@ + decimal(task.0 as nat) + ".log"@),
{
    let mut s = lead(".mh/tasks/", decimal_text(task.0).as_str());
    s.append(".log");
    join_path(workspace, s.as_str())
}

/// Where a detached run says whether it was admitted.
pub fn admission_path(workspace: &str, task: TaskId, launcher: u32) -> (r: String)
    ensures
        r@ == below(
            workspace@,
            ".mh/tasks/"@ + decimal(task.0 as nat) + "."@ + decimal(launcher as nat)
                + ".admission"@,
        ),
{
    let mut s = lead(".mh/tasks/", decimal_text(task.0).as_str());
    s.append(".");
    s.append(decimal_text(launcher as u64).as_str());
    s.append(".admission");
    join_path(workspace, s.as_str())
}

/// What a launch knows of its detached run at one look.
#[derive(Clone, Debug, PartialEq, Eq)]
pub struct AdmissionLook {
    /// What stands in the file of the run, where it can be read.
    pub message: Option<String>,
    /// How the run exited, where it has.
    pub exited: Option<String>,
    pub timed_out: bool,
}

/// What a launch does next.
#[derive(Clone, Debug, PartialEq, Eq)]
pub enum AdmissionStep {
    Admitted,
    Failed(CliError),
    /// Sleep, then look again.
    Sleep,
}

/// Whether a message is whole: the run ends it with an end of line.
pub open spec fn whole(message: Seq<char>) -> bool {
    message.len() > 0 && message.last() == '\n'
}

/// Why a detached run was not admitted: `None` where it was, or is not known to
/// be; the flag says whether the launch waits on.
pub open spec fn admission(look: AdmissionLook) -> (Option<Seq<char>>, bool) {
    match look.message {
        Some(message) if whole(message@) => if trimmed(message@) == "admitted"@ {
            (None, false)
        } else {
            (Some("detached admission failed: "@ + trimmed(message@)), false)
        },
        _ => match look.exited {
            Some(status) => (
                Some("detached runner exited before admission ("@ + status@ + ")"@),
                false,
            ),
            None => if look.timed_out {
                (Some("timed out waiting for detached runner admission"@), false)
            } else {
                (None, true)
            },
        },
    }
}

/// Whether a step is what a look calls for.
pub open spec fn is_step(step: AdmissionStep, look: AdmissionLook) -> bool {
    match step {
        AdmissionStep::Admitted => admission(look) == (None::<Seq<char>>, false),
        AdmissionStep::Sleep => admission(look) == (None::<Seq<char>>, true),
        AdmissionStep::Failed(e) => e matches CliError::Model(m) && admission(look) == (
            Some(m@),
            false,
        ),
    }
}

fn is_whole(message: &str) -> (r: bool)
    ensures
        r == whole(message@),
{
    let chars = to_chars(message);
    chars.len() > 0 && chars[chars.len() - 1] == '\n'
}

/// What a launch does after one look at its detached run. A message that is not
/// whole yet is not read.
pub fn wait_for_detached_admission(look: &AdmissionLook) -> (r: AdmissionStep)
    ensures
        is_step(r, *look),
{
    match &look.message {
        Some(message) => {
            if is_whole(message.as_str()) {
                let said = trim(message.as_str());
                if same(said.as_str(), "admitted") {
                    return AdmissionStep::Admitted;
                }
                return AdmissionStep::Failed(
                    CliError::Model(lead("detached admission failed: ", said.as_str())),
                );
            }
        },
        None => {},
    }
    match &look.exited {
        Some(status) => {
            let mut s = lead("detached runner exited before admission (", status.as_str());
            s.append(")");
            AdmissionStep::Failed(CliError::Model(s))
        },
        None => if look.timed_out {
            AdmissionStep::Failed(
                CliError::Model(text("timed out waiting for detached runner admission")),
            )
        } else {
            AdmissionStep::Sleep
        },
    }
}

/// A detached run is taken for admitted only on a whole message that says so,
/// whatever else is known of it.
pub proof fn law_admission_needs_a_whole_message(look: AdmissionLook)
    ensures
        is_step(AdmissionStep::Admitted, look) <==> (look.message matches Some(m) && whole(m@)
            && trimmed(m@) == "admitted"@),
{
}

/// What the launch says of a run that was not admitted.
pub fn not_admitted(task: TaskId, error: &CliError) -> (r: CliError)
    ensures
        r matches CliError::Model(m) && m@ == "task "@ + decimal(task.0 as nat)
            + " queued but not admitted: "@ + error.text(),
{
    let mut s = lead("task ", decimal_text(task.0).as_str());
    s.append(" queued but not admitted: ");
    s.append(error.message().as_str());
    CliError::Model(s)
}

/// What the launch says of a run that was admitted.
pub fn detached_lines(task: TaskId, log: &str) -> (r: Vec<String>)
    ensures
        views(r@) == seq![
            "[detach] task "@ + decimal(task.0 as nat) + " admitted"@,
            "[detach] log "@ + log@,
            "[detach] steer with `mh steer "@ + decimal(task.0 as nat)
                + " \"...\"`, watch with `mh inspect "@ + decimal(task.0 as nat) + "`"@,
        ],
{
    let id = decimal_text(task.0);
    let mut first = lead("[detach] task ", id.as_str());
    first.append(" admitted");
    let mut out = one(first);
    push_line(&mut out, lead("[detach] log ", log));
    let mut last = lead("[detach] steer with `mh steer ", id.as_str());
    last.append(" \"...\"`, watch with `mh inspect ");
    last.append(id.as_str());
    last.append("`");
    push_line(&mut out, last);
    proof {
        assert(views(out@) =~= seq![
            "[detach] task "@ + decimal(task.0 as nat) + " admitted"@,
            "[detach] log "@ + log@,
            "[detach] steer with `mh steer "@ + decimal(task.0 as nat)
                + " \"...\"`, watch with `mh inspect "@ + decimal(task.0 as nat) + "`"@,
        ]);
    }
    out
}

/// Whether an error says that another runner owns the workspace.
pub open spec fn is_busy(error: CliError) -> bool {
    match error {
        CliError::Session(SessionError::Busy(_)) => true,
        CliError::Agent(AgentError::Session(SessionError::Busy(_))) => true,
        _ => false,
    }
}

/// What a detached run leaves behind when it fails: the message for its launch,
/// where nothing was said yet, and the reason its task is blocked for, where the
/// task is still active and the run was not merely kept out of the workspace.
pub fn detached_failure(error: &CliError, said: Option<bool>, active: Option<bool>) -> (r: (
    Option<String>,
    Option<String>,
))
    ensures
        opt_view(r.0) == if said == Some(false) {
            Some(error.text() + "\n"@)
        } else {
            None
        },
        opt_view(r.1) == if !is_busy(*error) && active == Some(true) {
            Some(error.text())
        } else {
            None
        },
{
    let message = match said {
        Some(false) => {
            let mut s = error.message();
            s.append("\n");
            Some(s)
        },
        _ => None,
    };
    let busy = match error {
        CliError::Session(SessionError::Busy(_)) => true,
        CliError::Agent(AgentError::Session(SessionError::Busy(_))) => true,
        _ => false,
    };
    let reason = match active {
        Some(true) => if busy {
            None
        } else {
            Some(error.message())
        },
        _ => None,
    };
    (message, reason)
}

/// Lines, each set off by four spaces.
pub open spec fn set_off(items: Seq<Seq<char>>) -> Seq<Seq<char>> {
    items.map_values(|s: Seq<char>| "    "@ + s)
}

/// What is said of a prelude before its user is asked to trust it.
pub open spec fn notice_lines(prelude: Prelude) -> Seq<Seq<char>> {
    seq![
        ""@,
        "[prelude] "@ + prelude.path@ + " is not yet trusted."@,
        "  It runs before every PTC program with your own capabilities: it can"@,
        "  read and write this workspace and start subprocesses."@,
        "  "@ + decimal(lines(prelude.source@).len()) + " lines, "@ + identity_of(prelude.source@),
    ] + (match description_of(prelude.source@) {
        Some(tools) => seq!["  Advertised tools:"@] + set_off(lines(tools)),
        None => seq!["  It advertises no tools to the model."@],
    }) + seq![
        "  Review it before trusting. The decision is remembered for this"@,
        "  exact content; editing the prelude asks again."@,
    ]
}

fn push_set_off(out: &mut Vec<String>, items: &Vec<String>)
    ensures
        views(final(out)@) == views(old(out)@) + set_off(views(items@)),
{
    let ghost was = views(out@);
    let ghost all = views(items@);
    let mut i: usize = 0;
    proof {
        assert(was + set_off(all.take(0)) =~= was);
    }
    while i < items.len()
        invariant
            i <= items.len(),
            all == views(items@),
            views(out@) == was + set_off(all.take(i as int)),
        decreases items.len() - i,
    {
        push_line(out, lead("    ", items[i].as_str()));
        proof {
            assert(was + set_off(all.take(i + 1)) =~= (was + set_off(all.take(i as int))).push(
                "    "@ + all[i as int],
            ));
        }
        i = i + 1;
    }
    proof {
        assert(all.take(i as int) =~= all);
    }
}

/// What is said of a prelude before its user is asked to trust it.
pub fn prelude_notice(prelude: &Prelude) -> (r: Vec<String>)
    ensures
        views(r@) == notice_lines(*prelude),
{
    let source = lines_text(prelude.source.as_str());
    proof {
        assert(views(source@).len() == source@.len());
    }
    let mut out = one(text(""));
    let mut first = lead("[prelude] ", prelude.path.as_str());
    first.append(" is not yet trusted.");
    push_line(&mut out, first);
    push_line(
        &mut out,
        text("  It runs before every PTC program with your own capabilities: it can"),
    );
    push_line(&mut out, text("  read and write this workspace and start subprocesses."));
    let mut size = lead("  ", size_text(source.len()).as_str());
    size.append(" lines, ");
    size.append(prelude.identity().0.as_str());
    push_line(&mut out, size);
    let ghost heading = views(out@);
    match prelude.description() {
        Some(tools) => {
            push_line(&mut out, text("  Advertised tools:"));
            let shown = lines_text(tools.as_str());
            push_set_off(&mut out, &shown);
            proof {
                assert(views(out@) =~= heading + (seq!["  Advertised tools:"@] + set_off(
                    lines(tools@),
                )));
            }
        },
        None => {
            push_line(&mut out, text("  It advertises no tools to the model."));
            proof {
                assert(views(out@) =~= heading + seq!["  It advertises no tools to the model."@]);
            }
        },
    }
    push_line(&mut out, text("  Review it before trusting. The decision is remembered for this"));
    push_line(&mut out, text("  exact content; editing the prelude asks again."));
    proof {
        assert(views(out@) =~= notice_lines(*prelude));
    }
    out
}

/// What an answer to the question of trust means; `None` asks again.
pub open spec fn answer_of(answer: Option<Seq<char>>) -> Option<TrustDecision> {
    match answer {
        None => Some(TrustDecision::Rejected),
        Some(line) => {
            let said = lowered(trimmed(line));
            if said == "y"@ || said == "yes"@ {
                Some(TrustDecision::Trusted)
            } else if said.len() == 0 || said == "n"@ || said == "no"@ {
                Some(TrustDecision::Rejected)
            } else {
                None
            }
        },
    }
}

/// What an answer to the question of trust means. No answer is not consent, and
/// one that is neither yes nor no is asked for again.
pub fn confirm_prelude(answer: &Option<String>) -> (r: Option<TrustDecision>)
    ensures
        r == answer_of(opt_view(*answer)),
{
    match answer {
        None => Some(TrustDecision::Rejected),
        Some(line) => {
            let said = lower_text(trim(line.as_str()).as_str());
            proof {
                reveal_strlit("");
                assert(said@.len() == 0 <==> said@ =~= ""@);
            }
            if same(said.as_str(), "y") || same(said.as_str(), "yes") {
                Some(TrustDecision::Trusted)
            } else if same(said.as_str(), "") || same(said.as_str(), "n") || same(
                said.as_str(),
                "no",
            ) {
                Some(TrustDecision::Rejected)
            } else {
                None
            }
        },
    }
}

/// A prelude is trusted only on an answer of yes.
pub proof fn law_only_yes_is_consent(answer: Option<Seq<char>>)
    ensures
        answer_of(answer) == Some(TrustDecision::Trusted) <==> (answer matches Some(line) && (
        lowered(trimmed(line)) == "y"@ || lowered(trimmed(line)) == "yes"@)),
{
}

/// A command that means the same whether or not an agent runs.
#[derive(Debug, PartialEq, Eq)]
pub enum Shared {
    Help,
    /// Show the task of this session.
    InspectRoot,
    /// What the same command asks for outside the console.
    Run(Result<Command, CliError>),
}

/// A command that means the same whether or not an agent runs, as plain values.
pub enum SharedAsked {
    Help,
    InspectRoot,
    Run(Result<Asked, Seq<char>>),
}

/// Whether a command is what is asked for.
pub open spec fn is_shared(r: Option<Shared>, asked: Option<SharedAsked>) -> bool {
    match r {
        None => asked is None,
        Some(Shared::Help) => asked == Some(SharedAsked::Help),
        Some(Shared::InspectRoot) => asked == Some(SharedAsked::InspectRoot),
        Some(Shared::Run(command)) => match asked_of(command) {
            Some(value) => asked == Some(SharedAsked::Run(value)),
            None => false,
        },
    }
}

/// The command that a line names, where it names one. A slash command with
/// arguments it does not take is no command.
pub open spec fn shared_asked(line: Seq<Seq<char>>) -> Option<SharedAsked> {
    if line.len() == 0 {
        None
    } else if line[0] == "/help"@ {
        Some(SharedAsked::Help)
    } else if line[0] == "/session"@ {
        Some(SharedAsked::Run(asked(seq!["sessions"@])))
    } else if line[0] == "/tasks"@ && line.len() == 1 {
        Some(SharedAsked::Run(asked(seq!["tasks"@])))
    } else if line[0] == "/inspect"@ {
        if line.len() == 1 {
            Some(SharedAsked::InspectRoot)
        } else {
            Some(SharedAsked::Run(asked(line.update(0, "inspect"@))))
        }
    } else if line[0] == "/cancel"@ {
        Some(SharedAsked::Run(asked(line.update(0, "cancel"@))))
    } else {
        None
    }
}

fn run_instead(line: &Vec<String>, name: &str) -> (r: Option<Shared>)
    requires
        line.len() > 0,
    ensures
        is_shared(r, Some(SharedAsked::Run(asked(views(line@).update(0, name@))))),
{
    let mut args = copy_strings(line);
    let ghost before = views(args@);
    args.set(0, text(name));
    proof {
        assert(views(args@) =~= before.update(0, name@));
    }
    Some(Shared::Run(parse_command(&args)))
}

fn run_alone(name: &str) -> (r: Option<Shared>)
    ensures
        is_shared(r, Some(SharedAsked::Run(asked(seq![name@])))),
{
    let args = one(text(name));
    Some(Shared::Run(parse_command(&args)))
}

/// The command that a line names, where it names one that means the same
/// whether or not an agent runs.
pub fn repl_shared_command(message: &str) -> (r: Option<Shared>)
    ensures
        is_shared(r, shared_asked(words(message@))),
{
    let line = words_text(message);
    proof {
        assert(views(line@).len() == line@.len());
    }
    if line.len() == 0 {
        return None;
    }
    proof {
        assert(views(line@)[0] == line@[0]@);
    }
    let name = line[0].as_str();
    if same(name, "/help") {
        Some(Shared::Help)
    } else if same(name, "/session") {
        run_alone("sessions")
    } else if same(name, "/tasks") && line.len() == 1 {
        run_alone("tasks")
    } else if same(name, "/inspect") {
        if line.len() == 1 {
            Some(Shared::InspectRoot)
        } else {
            run_instead(&line, "inspect")
        }
    } else if same(name, "/cancel") {
        run_instead(&line, "cancel")
    } else {
        None
    }
}

/// What showing the task of this session comes to: the task, `None` where there
/// is none yet, or the error.
pub fn repl_root_task(found: Result<Option<TaskId>, SessionError>) -> (r: Result<
    Option<TaskId>,
    CliError,
>)
    ensures
        match found {
            Ok(task) => r == Ok::<Option<TaskId>, CliError>(task),
            Err(SessionError::NoSession(_)) => r == Ok::<Option<TaskId>, CliError>(None),
            Err(e) => r == Err::<Option<TaskId>, CliError>(CliError::Session(e)),
        },
{
    match found {
        Ok(task) => Ok(task),
        Err(SessionError::NoSession(_)) => Ok(None),
        Err(e) => Err(CliError::Session(e)),
    }
}

/// What the console does with a line.
#[derive(Debug, PartialEq, Eq)]
pub enum ConsoleStep {
    /// Nothing was typed.
    Prompt,
    /// Leave; an agent that runs is interrupted first.
    Quit,
    /// An agent runs already, and cannot be resumed.
    AlreadyRunning,
    Shared(Shared),
    /// Steer the agent that runs.
    Steer(String),
    Resume,
    /// Start a task, or go on with the one that waits.
    Start(String),
}

/// Whether a step is what a line calls for.
pub open spec fn is_console_step(step: ConsoleStep, line: Seq<char>, active: bool) -> bool {
    let message = trimmed(line);
    if message.len() == 0 {
        step is Prompt
    } else if message == "/quit"@ || message == "/exit"@ {
        step is Quit
    } else if message == "/resume"@ {
        if active {
            step is AlreadyRunning
        } else {
            step is Resume
        }
    } else if shared_asked(words(message)) is Some {
        step matches ConsoleStep::Shared(command) && is_shared(
            Some(command),
            shared_asked(words(message)),
        )
    } else if active {
        step matches ConsoleStep::Steer(content) && content@ == message
    } else {
        step matches ConsoleStep::Start(content) && content@ == message
    }
}

/// What the console does with a line. Inspection and cancellation stay available
/// while an agent works; anything else steers it. With no agent at work, any
/// line that is no command starts a task.
pub fn repl(line: &str, active: bool) -> (r: ConsoleStep)
    ensures
        is_console_step(r, line@, active),
{
    let message = trim(line);
    if to_chars(message.as_str()).len() == 0 {
        return ConsoleStep::Prompt;
    }
    if same(message.as_str(), "/quit") || same(message.as_str(), "/exit") {
        return ConsoleStep::Quit;
    }
    if same(message.as_str(), "/resume") {
        return if active {
            ConsoleStep::AlreadyRunning
        } else {
            ConsoleStep::Resume
        };
    }
    match repl_shared_command(message.as_str()) {
        Some(command) => ConsoleStep::Shared(command),
        None => if active {
            ConsoleStep::Steer(message)
        } else {
            ConsoleStep::Start(message)
        },
    }
}

/// How an agent that ran in the background ended.
#[derive(Clone, Debug, PartialEq, Eq)]
pub enum WorkerEnded {
    Done(TaskOutcome),
    Failed(AgentError),
    Panicked,
}

/// What is said of an agent that ended, and its answer where it has one.
pub open spec fn ended(end: WorkerEnded) -> (Seq<char>, Option<Seq<char>>) {
    match end {
        WorkerEnded::Done(outcome) => (
            if outcome is Completed {
                "[task] complete"@
            } else {
                "[task] parked — waiting for you; reply, or run `mh resume`"@
            },
            Some(outcome.text()),
        ),
        WorkerEnded::Failed(AgentError::Cancelled) => ("[agent] cancelled"@, None),
        WorkerEnded::Failed(error) => ("[agent] "@ + error.text(), None),
        WorkerEnded::Panicked => ("[agent] worker panicked"@, None),
    }
}

/// What is said of an agent that ended, and its answer where it has one.
pub fn report_worker(end: &WorkerEnded) -> (r: (String, Option<String>))
    ensures
        (r.0@, opt_view(r.1)) == ended(*end),
{
    match end {
        WorkerEnded::Done(outcome) => {
            let (said, answer) = report_outcome(outcome);
            (text(said), Some(answer))
        },
        WorkerEnded::Failed(AgentError::Cancelled) => (text("[agent] cancelled"), None),
        WorkerEnded::Failed(error) => (lead("[agent] ", error.message().as_str()), None),
        WorkerEnded::Panicked => (text("[agent] worker panicked"), None),
    }
}

} // verus!
