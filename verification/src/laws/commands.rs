//! What the command line and the console take a line for.
use vstd::prelude::*;
use crate::agent::{AgentError, TaskOutcome};
use crate::cli::{asked, run_asked, summary_of, task_named, without_detach, Asked, CliError, Resource};
use crate::console::{all_reports, answer_of, ended, first_view, is_busy, is_console_step, is_shared, is_step, list_lines, notice_lines, receipt_lines, shared_asked, AdmissionLook, AdmissionStep, ConsoleStep, Receipt, Shared, SharedAsked, WorkerEnded};
use crate::display::report_lines;
use crate::identity::{ExecutionId, ProcessId, TaskId};
use crate::laws::texts::{law_a_written_number_is_read_back, lemma_in_sum, lemma_shows};
use crate::ptc::diagnostics::lowered;
use crate::ptc::prelude::{identity_of, Prelude};
use crate::ptc::trust::TrustDecision;
use crate::runtime::TaskReport;
use crate::session::{SessionError, TaskView};
use crate::text::{contains, decimal, is_space, joined, lines, trimmed, words};

verus! {

proof fn lemma_commands()
    ensures
        "--help"@.len() == 6 && "--help"@[0] == '-',
        "-h"@.len() == 2 && "-h"@[0] == '-' && "-h"@[1] == 'h',
        "--version"@.len() == 9 && "--version"@[0] == '-',
        "-V"@.len() == 2 && "-V"@[0] == '-' && "-V"@[1] == 'V',
        "run"@.len() == 3,
        "resume"@.len() == 6 && "resume"@[0] == 'r',
        "attach"@.len() == 6 && "attach"@[0] == 'a',
        "tasks"@.len() == 5 && "tasks"@[0] == 't',
        "inspect"@.len() == 7 && "inspect"@[0] == 'i',
        "steer"@.len() == 5 && "steer"@[0] == 's',
        "cancel"@.len() == 6 && "cancel"@[0] == 'c',
        "recover"@.len() == 7 && "recover"@[0] == 'r',
        "sessions"@.len() == 8,
        "__run-detached"@.len() == 14,
        "--detach"@.len() == 8,
        "execution"@.len() == 9,
        "process"@.len() == 7,
        "/help"@.len() == 5 && "/help"@[0] == '/' && "/help"@[1] == 'h',
        "/session"@.len() == 8 && "/session"@[0] == '/' && "/session"@[1] == 's',
        "/tasks"@.len() == 6 && "/tasks"@[0] == '/',
        "/inspect"@.len() == 8 && "/inspect"@[0] == '/' && "/inspect"@[1] == 'i',
        "/cancel"@.len() == 7 && "/cancel"@[0] == '/' && "/cancel"@[1] == 'c',
        "/quit"@.len() == 5 && "/quit"@[0] == '/' && "/quit"@[1] == 'q',
        "/exit"@.len() == 5 && "/exit"@[0] == '/' && "/exit"@[1] == 'e',
        "/resume"@.len() == 7 && "/resume"@[0] == '/' && "/resume"@[1] == 'r',
{
    reveal_strlit("--help");
    reveal_strlit("-h");
    reveal_strlit("--version");
    reveal_strlit("-V");
    reveal_strlit("run");
    reveal_strlit("resume");
    reveal_strlit("attach");
    reveal_strlit("tasks");
    reveal_strlit("inspect");
    reveal_strlit("steer");
    reveal_strlit("cancel");
    reveal_strlit("recover");
    reveal_strlit("sessions");
    reveal_strlit("__run-detached");
    reveal_strlit("--detach");
    reveal_strlit("execution");
    reveal_strlit("process");
    reveal_strlit("/help");
    reveal_strlit("/session");
    reveal_strlit("/tasks");
    reveal_strlit("/inspect");
    reveal_strlit("/cancel");
    reveal_strlit("/quit");
    reveal_strlit("/exit");
    reveal_strlit("/resume");
}

/// Each command that takes no task, or may go without one, is understood.
pub proof fn law_plain_commands_are_understood(rest: Seq<Seq<char>>)
    ensures
        asked(Seq::empty()) == Ok::<Asked, Seq<char>>(Asked::Repl),
        asked(seq!["--help"@] + rest) == Ok::<Asked, Seq<char>>(Asked::Help),
        asked(seq!["-h"@] + rest) == Ok::<Asked, Seq<char>>(Asked::Help),
        asked(seq!["--version"@] + rest) == Ok::<Asked, Seq<char>>(Asked::Version),
        asked(seq!["-V"@] + rest) == Ok::<Asked, Seq<char>>(Asked::Version),
        asked(seq!["tasks"@]) == Ok::<Asked, Seq<char>>(Asked::Tasks),
        asked(seq!["sessions"@]) == Ok::<Asked, Seq<char>>(Asked::Sessions),
        asked(seq!["resume"@]) == Ok::<Asked, Seq<char>>(Asked::Resume(None)),
        asked(seq!["cancel"@]) == Ok::<Asked, Seq<char>>(Asked::Cancel(None)),
        asked(seq!["attach"@]) is Err,
        asked(seq!["inspect"@]) is Err,
        asked(seq!["steer"@]) is Err,
        asked(seq!["recover"@]) is Err,
        asked(seq!["run"@]) is Err,
{
    lemma_commands();
    assert((seq!["--help"@] + rest)[0] == "--help"@);
    assert((seq!["-h"@] + rest)[0] == "-h"@);
    assert((seq!["--version"@] + rest)[0] == "--version"@);
    assert((seq!["-V"@] + rest)[0] == "-V"@);
    assert(seq!["run"@].skip(1) =~= Seq::<Seq<char>>::empty());
    let none = Seq::<Seq<char>>::empty();
    assert(without_detach(none) =~= none);
    assert(joined(none, " "@) =~= Seq::<char>::empty());
    assert(trimmed(Seq::<char>::empty()).len() == 0);
}

/// Each command that names a task is of that task.
pub proof fn law_commands_are_of_the_task_they_name(
    n: u64,
    m: u64,
    word: Seq<char>,
    words: Seq<Seq<char>>,
)
    requires
        words.len() > 0,
    ensures
        ({
            let t = decimal(n as nat);
            let r = decimal(m as nat);
            let task = TaskId(n);
            &&& asked(seq!["resume"@, t]) == Ok::<Asked, Seq<char>>(Asked::Resume(Some(task)))
            &&& asked(seq!["cancel"@, t]) == Ok::<Asked, Seq<char>>(Asked::Cancel(Some(task)))
            &&& asked(seq!["attach"@, t]) == Ok::<Asked, Seq<char>>(Asked::Attach(task))
            &&& asked(seq!["inspect"@, t]) == Ok::<Asked, Seq<char>>(Asked::Inspect(task))
            &&& asked(seq!["__run-detached"@, t]) == Ok::<Asked, Seq<char>>(Asked::Detached(task))
            &&& asked(seq!["steer"@, t] + words) == Ok::<Asked, Seq<char>>(
                Asked::Steer(task, joined(words, " "@)),
            )
            &&& asked(seq!["recover"@, t, "execution"@, r] + words) == Ok::<Asked, Seq<char>>(
                Asked::Recover(
                    task,
                    Resource::Execution(ExecutionId(m)),
                    joined(words, " "@),
                ),
            )
            &&& asked(seq!["recover"@, t, "process"@, r] + words) == Ok::<Asked, Seq<char>>(
                Asked::Recover(task, Resource::Process(ProcessId(m)), joined(words, " "@)),
            )
            &&& asked(seq!["recover"@, t, "process"@, r]) is Err
        }),
{
    lemma_commands();
    let t = decimal(n as nat);
    let r = decimal(m as nat);
    law_a_written_number_is_read_back(n as nat, word, 0);
    law_a_written_number_is_read_back(m as nat, word, 0);
    let steer = seq!["steer"@, t] + words;
    assert(steer.skip(1).skip(1) =~= words);
    let e = seq!["recover"@, t, "execution"@, r] + words;
    let p = seq!["recover"@, t, "process"@, r] + words;
    assert(e.skip(1).skip(3) =~= words);
    assert(p.skip(1).skip(3) =~= words);
}

/// A task is named by its number and by nothing else.
pub proof fn law_a_task_is_named_by_its_number(n: u64, raw: Seq<char>)
    ensures
        task_named(decimal(n as nat)) == Ok::<TaskId, Seq<char>>(TaskId(n)),
        crate::text::number_of(raw) is Err ==> task_named(raw) is Err,
{
    law_a_written_number_is_read_back(n as nat, raw, 0);
}

/// What is run is what was written, word by word; a request to detach is taken out
/// of it, wherever it stands.
pub proof fn law_what_is_run_is_what_was_written(args: Seq<Seq<char>>, word: Seq<char>)
    ensures
        without_detach(Seq::empty()) == Seq::<Seq<char>>::empty(),
        without_detach(args.push("--detach"@)) == without_detach(args),
        word != "--detach"@ ==> without_detach(args.push(word)) == without_detach(args).push(word),
        trimmed(joined(without_detach(args), " "@)).len() > 0 ==> run_asked(args) == Ok::<
            Asked,
            Seq<char>,
        >(Asked::Run(joined(without_detach(args), " "@), args.contains("--detach"@))),
        trimmed(joined(without_detach(args), " "@)).len() == 0 ==> run_asked(args) is Err,
        asked(seq!["run"@] + args) == run_asked(args),
{
    lemma_commands();
    assert(args.push("--detach"@).drop_last() =~= args);
    assert(args.push(word).drop_last() =~= args);
    assert((seq!["run"@] + args).skip(1) =~= args);
}

/// Words that are no command are a task to run, and it stays in the foreground.
pub proof fn law_other_words_are_a_task(args: Seq<Seq<char>>)
    requires
        args.len() > 0,
        args[0].len() > 14,
    ensures
        asked(args) == Ok::<Asked, Seq<char>>(Asked::Run(joined(args, " "@), false)),
{
    lemma_commands();
}

/// A summary is the first line, without white space at its ends, cut where it is
/// too long, and marked where anything is missing.
pub proof fn law_a_summary_is_the_first_line(s: Seq<char>, max: nat)
    ensures
        lines(s).len() == 1 && trimmed(lines(s)[0]).len() <= max ==> summary_of(s, max) == trimmed(
            lines(s)[0],
        ),
        lines(s).len() > 1 && trimmed(lines(s)[0]).len() <= max ==> summary_of(s, max) == trimmed(
            lines(s)[0],
        ) + " …"@,
        lines(s).len() > 0 && trimmed(lines(s)[0]).len() > max ==> summary_of(s, max) == trimmed(
            lines(s)[0],
        ).take(max as int) + " …"@,
        lines(s).len() == 0 ==> summary_of(s, max).len() == 0,
{
}

/// A prelude is trusted where the user says yes, turned down where they say no or
/// nothing, and asked about again where they say anything else.
pub proof fn law_an_answer_is_yes_no_or_asked_again(line: Seq<char>)
    ensures
        lowered(trimmed(line)) == "y"@ || lowered(trimmed(line)) == "yes"@ ==> answer_of(Some(line))
            == Some(TrustDecision::Trusted),
        lowered(trimmed(line)) == "n"@ || lowered(trimmed(line)) == "no"@ || trimmed(line).len()
            == 0 ==> answer_of(Some(line)) == Some(TrustDecision::Rejected),
        answer_of(None) == Some(TrustDecision::Rejected),
        answer_of(Some(line)) is None <==> lowered(trimmed(line)) != "y"@ && lowered(trimmed(line))
            != "yes"@ && lowered(trimmed(line)) != "n"@ && lowered(trimmed(line)) != "no"@
            && trimmed(line).len() > 0,
{
    reveal_strlit("y");
    reveal_strlit("yes");
    reveal_strlit("n");
    reveal_strlit("no");
    assert("y"@.len() == 1 && "y"@[0] == 'y');
    assert("n"@.len() == 1 && "n"@[0] == 'n');
    assert("yes"@.len() == 3);
    assert("no"@.len() == 2);
    assert(lowered(trimmed(line)).len() == trimmed(line).len());
}

/// A detached runner is waited for until it says something whole, ends, or takes
/// too long: then it was admitted, or it failed.
pub proof fn law_a_runner_is_waited_for_until_it_is_settled(
    look: AdmissionLook,
    step: AdmissionStep,
    message: String,
)
    requires
        is_step(step, look),
    ensures
        look.message == Some(message) && message@.len() > 0 && message@.last() == '\n' ==> (
        step is Admitted <==> trimmed(message@) == "admitted"@) && !(step is Sleep),
        look.message is None && look.exited is Some ==> step is Failed,
        look.message is None && look.exited is None && look.timed_out ==> step is Failed,
        look.message is None && look.exited is None && !look.timed_out ==> step is Sleep,
        look.message == Some(message) && (message@.len() == 0 || message@.last() != '\n')
            && look.exited is None && !look.timed_out ==> step is Sleep,
{
}

proof fn lemma_first_word(s: Seq<char>)
    requires
        s.len() > 0,
        !is_space(s[0]),
    ensures
        words(s).len() > 0,
        words(s)[0].len() > 0,
        words(s)[0][0] == s[0],
    decreases s.len(),
{
    let init = s.drop_last();
    if s.len() == 1 {
        assert(words(init) =~= Seq::<Seq<char>>::empty());
        assert(words(s) =~= Seq::<Seq<char>>::empty().push(seq![s[0]]));
    } else {
        lemma_first_word(init);
        assert(init[0] == s[0]);
        let w = words(init);
        if is_space(s.last()) {
        } else if !is_space(s[s.len() - 2]) {
            if w.len() == 1 {
                assert(w.last() == w[0]);
            } else {
                assert(w.drop_last()[0] == w[0]);
            }
        } else {
            assert(w.push(seq![s.last()])[0] == w[0]);
        }
    }
}

/// What the user writes at the console is a new task, or steers the one that
/// runs; a blank line is neither.
pub proof fn law_what_is_written_starts_or_steers(line: Seq<char>, active: bool, step: ConsoleStep)
    requires
        is_console_step(step, line, active),
    ensures
        trimmed(line).len() == 0 ==> step is Prompt,
        trimmed(line).len() > 0 && trimmed(line)[0] != '/' && active ==> (step matches
            ConsoleStep::Steer(content) && content@ == trimmed(line)),
        trimmed(line).len() > 0 && trimmed(line)[0] != '/' && !active ==> (step matches
            ConsoleStep::Start(content) && content@ == trimmed(line)),
        trimmed(line) == "/quit"@ || trimmed(line) == "/exit"@ ==> step is Quit,
        trimmed(line) == "/resume"@ && active ==> step is AlreadyRunning,
        trimmed(line) == "/resume"@ && !active ==> step is Resume,
{
    lemma_commands();
    let message = trimmed(line);
    crate::laws::texts::law_trimming_takes_white_space_off_the_ends(line);
    if message.len() > 0 {
        lemma_first_word(message);
    }
}

/// The commands of the console that the command line has too are the same there.
pub proof fn law_console_commands_are_commands(word: Seq<char>, rest: Seq<Seq<char>>)
    ensures
        shared_asked(seq!["/help"@] + rest) == Some(SharedAsked::Help),
        shared_asked(seq!["/tasks"@]) == Some(SharedAsked::Run(asked(seq!["tasks"@]))),
        shared_asked(seq!["/session"@]) == Some(SharedAsked::Run(asked(seq!["sessions"@]))),
        shared_asked(seq!["/inspect"@]) == Some(SharedAsked::InspectRoot),
        shared_asked(seq!["/inspect"@, word]) == Some(
            SharedAsked::Run(asked(seq!["inspect"@, word])),
        ),
        shared_asked(seq!["/cancel"@]) == Some(SharedAsked::Run(asked(seq!["cancel"@]))),
        shared_asked(seq!["/cancel"@, word]) == Some(
            SharedAsked::Run(asked(seq!["cancel"@, word])),
        ),
{
    lemma_commands();
    assert((seq!["/help"@] + rest)[0] == "/help"@);
    assert(seq!["/cancel"@].update(0, "cancel"@) =~= seq!["cancel"@]);
    assert(seq!["/cancel"@, word].update(0, "cancel"@) =~= seq!["cancel"@, word]);
    assert(seq!["/inspect"@, word].update(0, "inspect"@) =~= seq!["inspect"@, word]);
}

/// A task that ended is said to be complete, or to wait for the user, with what it
/// said last; one that failed is reported with why.
pub proof fn law_the_end_of_a_task_is_reported(said: String, error: AgentError)
    ensures
        ended(WorkerEnded::Done(TaskOutcome::Completed(said))).0 == "[task] complete"@,
        ended(WorkerEnded::Done(TaskOutcome::Completed(said))).1 == Some(said@),
        ended(WorkerEnded::Done(TaskOutcome::AwaitingUser(said))).0
            == "[task] parked — waiting for you; reply, or run `mh resume`"@,
        ended(WorkerEnded::Done(TaskOutcome::AwaitingUser(said))).1 == Some(said@),
        !(error is Cancelled) ==> contains(ended(WorkerEnded::Failed(error)).0, error.text()),
        ended(WorkerEnded::Failed(error)).1 is None,
{
    lemma_in_sum("[agent] "@, error.text());
}

/// A workspace is busy where another runner has it, however that is reported.
pub proof fn law_a_workspace_is_busy_under_another_runner(message: String, error: CliError)
    ensures
        is_busy(CliError::Session(SessionError::Busy(message))),
        is_busy(CliError::Agent(AgentError::Session(SessionError::Busy(message)))),
        is_busy(error) ==> error is Session || error is Agent,
        !is_busy(CliError::Session(SessionError::State(message))),
        !is_busy(CliError::Session(SessionError::NoSession(message))),
{
}

/// The list of tasks has the lines of each, in order.
pub proof fn law_every_task_is_listed(reports: Seq<TaskReport>, report: TaskReport)
    ensures
        list_lines(Seq::empty()) == seq!["no tasks"@],
        all_reports(Seq::empty()) == Seq::<Seq<char>>::empty(),
        all_reports(reports.push(report)) == all_reports(reports) + report_lines(report),
        list_lines(reports.push(report)).skip(1) == all_reports(reports.push(report)),
{
    assert(reports.push(report).drop_last() =~= reports);
    let all = all_reports(reports.push(report));
    assert((seq![crate::console::list_heading()] + all).skip(1) =~= all);
}

/// A task that is inspected is the first one with its number.
pub proof fn law_the_task_that_is_inspected(tasks: Seq<TaskView>, task: TaskId, i: int, j: int)
    requires
        first_view(tasks, task, i),
    ensures
        tasks[i].task_id == task,
        0 <= j < i ==> tasks[j].task_id != task,
{
}

/// A receipt says of which task it is, as which command and which event it was
/// taken, and warns where it should.
pub proof fn law_a_receipt_says_what_was_taken(tag: Seq<char>, what: Seq<char>, receipt: Receipt)
    ensures
        receipt_lines(tag, what, receipt).len() == if receipt.cache_warning is Some {
            2nat
        } else {
            1nat
        },
        contains(receipt_lines(tag, what, receipt)[0], decimal(receipt.task_id.0 as nat)),
        contains(receipt_lines(tag, what, receipt)[0], receipt.command_id@),
        contains(receipt_lines(tag, what, receipt)[0], decimal(receipt.seq as nat)),
        receipt.cache_warning matches Some(warning) ==> contains(
            receipt_lines(tag, what, receipt)[1],
            warning@,
        ),
{
    let t = decimal(receipt.task_id.0 as nat);
    let s = decimal(receipt.seq as nat);
    let c = receipt.command_id@;
    let p0 = tag + what + " for task "@;
    let p1 = p0 + t;
    let p2 = p1 + " as command "@;
    let p3 = p2 + c;
    let p4 = p3 + " (event "@;
    let p5 = p4 + s;
    lemma_in_sum(p0, t);
    lemma_in_sum(p1, " as command "@);
    lemma_in_sum(p2, c);
    lemma_in_sum(p3, " (event "@);
    lemma_in_sum(p4, s);
    lemma_in_sum(p5, ")"@);
    lemma_shows(p2, p1, t);
    lemma_shows(p3, p2, t);
    lemma_shows(p4, p3, t);
    lemma_shows(p5, p4, t);
    lemma_shows(p5 + ")"@, p5, t);
    lemma_shows(p4, p3, c);
    lemma_shows(p5, p4, c);
    lemma_shows(p5 + ")"@, p5, c);
    lemma_shows(p5 + ")"@, p5, s);
    match receipt.cache_warning {
        Some(warning) => lemma_in_sum(tag + "warning: "@, warning@),
        None => {},
    }
}

/// Before it is asked about, a prelude is shown by its path and by the identity of
/// its content.
pub proof fn law_a_prelude_is_shown_before_it_is_asked_about(prelude: Prelude)
    ensures
        notice_lines(prelude).len() >= 7,
        contains(notice_lines(prelude)[1], prelude.path@),
        contains(notice_lines(prelude)[4], identity_of(prelude.source@)),
{
    let p = "[prelude] "@ + prelude.path@;
    lemma_in_sum("[prelude] "@, prelude.path@);
    lemma_in_sum(p, " is not yet trusted."@);
    lemma_shows(p + " is not yet trusted."@, p, prelude.path@);
    lemma_in_sum(
        "  "@ + decimal(lines(prelude.source@).len()) + " lines, "@,
        identity_of(prelude.source@),
    );
}

/// A line that is no command of the console is taken for none, and one that is for
/// that one.
pub proof fn law_a_command_is_taken_for_itself(r: Option<Shared>, meant: Option<SharedAsked>)
    requires
        is_shared(r, meant),
    ensures
        r is None <==> meant is None,
        r == Some(Shared::Help) <==> meant == Some(SharedAsked::Help),
        r == Some(Shared::InspectRoot) <==> meant == Some(SharedAsked::InspectRoot),
        r matches Some(Shared::Run(Ok(command))) ==> meant == Some(
            SharedAsked::Run(Ok::<Asked, Seq<char>>(command@)),
        ),
{
}

} // verus!
