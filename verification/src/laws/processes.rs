//! What becomes of background processes.
use vstd::prelude::*;
use crate::identity::ProcessId;
use crate::laws::texts::law_a_joined_text_shows_its_parts;
use crate::process::{input_line, is_at, is_secret, is_tail, kept, known, last_lines, live_count, log_extension, recovered, running_where, same_snapshot, ChildStatus, ProcessEntry, ProcessSnapshot, ProcessState, ProcessStream, ProcessTail};
use crate::text::{contains, lines};

verus! {

/// A buffer keeps the end of what was written, as much of it as it may hold.
pub proof fn law_a_buffer_keeps_the_end(bytes: Seq<u8>, cap: nat, i: int)
    ensures
        bytes.len() <= cap ==> kept(bytes, cap) == bytes,
        bytes.len() > cap ==> kept(bytes, cap).len() == cap,
        bytes.len() > cap && 0 <= i < cap ==> kept(bytes, cap)[i] == bytes[bytes.len() - cap + i],
{
}

/// A process whose child ended is recorded as ended, once: with its exit code, at
/// that time, as killed where it was asked to end, and as failed where the child
/// was lost. Nothing more is written to it.
pub proof fn law_an_ended_process_is_recorded(
    entry: ProcessEntry,
    code: Option<i64>,
    now: u64,
)
    requires
        entry.has_child,
        entry.snap.state is Running,
    ensures
        ({
            let ended = entry.observed(ChildStatus::Exited(code), now);
            &&& ended.snap.state == if entry.killed {
                ProcessState::Killed
            } else {
                ProcessState::Exited
            }
            &&& ended.snap.exit_code == code
            &&& ended.snap.exited_at_ms == Some(now)
            &&& !ended.has_child
            &&& !ended.stdin_open
        }),
        ({
            let lost = entry.observed(ChildStatus::Lost, now);
            &&& lost.snap.state == ProcessState::Failed
            &&& lost.snap.exit_code is None
            &&& lost.snap.exited_at_ms == Some(now)
            &&& !lost.has_child
        }),
        entry.refreshed(ChildStatus::Exited(code), now) == entry.observed(
            ChildStatus::Exited(code),
            now,
        ),
        entry.refreshed(ChildStatus::Lost, now) == entry.observed(ChildStatus::Lost, now),
{
}

/// A process whose child still runs goes on running, and what it wrote is
/// counted.
pub proof fn law_a_running_process_goes_on(entry: ProcessEntry, now: u64)
    requires
        entry.has_child,
        entry.snap.state is Running,
    ensures
        ({
            let seen = entry.observed(ChildStatus::StillRunning, now);
            &&& seen.snap.state is Running
            &&& seen.snap.exit_code == entry.snap.exit_code
            &&& seen.has_child
            &&& seen.stdin_open == entry.stdin_open
            &&& entry.out matches Some(out) ==> seen.snap.stdout_bytes == out.total
            &&& entry.err matches Some(err) ==> seen.snap.stderr_bytes == err.total
        }),
        entry.refreshed(ChildStatus::StillRunning, now) == entry,
{
}

/// A look at a process changes neither whose it is nor what it is.
pub proof fn law_a_look_leaves_a_process_what_it_is(
    entry: ProcessEntry,
    status: ChildStatus,
    now: u64,
)
    ensures
        entry.observed(status, now).snap.id == entry.snap.id,
        entry.observed(status, now).snap.owner_task == entry.snap.owner_task,
        entry.observed(status, now).snap.owner_agent == entry.snap.owner_agent,
        entry.observed(status, now).snap.argv == entry.snap.argv,
        entry.observed(status, now).snap.started_at_ms == entry.snap.started_at_ms,
        entry.observed(status, now).out == entry.out,
        entry.observed(status, now).err == entry.err,
        entry.observed(status, now).killed == entry.killed,
        !entry.has_child ==> entry.observed(status, now) == entry,
{
}

/// A process that runs and is asked to end counts as killed once it has; one that
/// had ended by itself does not.
pub proof fn law_a_killed_process_is_recorded_as_killed(
    entry: ProcessEntry,
    code: Option<i64>,
    now: u64,
)
    requires
        entry.has_child,
        entry.snap.state is Running,
    ensures
        entry.asked_to_end(ChildStatus::StillRunning).observed(
            ChildStatus::Exited(code),
            now,
        ).snap.state == ProcessState::Killed,
        !entry.killed ==> entry.asked_to_end(ChildStatus::Exited(code)).observed(
            ChildStatus::Exited(code),
            now,
        ).snap.state == ProcessState::Exited,
        !entry.asked_to_end(ChildStatus::StillRunning).stdin_open,
        entry.asked_to_end(ChildStatus::StillRunning).snap == entry.snap,
{
}

/// The keys of the provider are secrets, and nothing else is.
pub proof fn law_the_keys_are_secrets(name: Seq<char>)
    ensures
        is_secret("MH_API_KEY"@),
        is_secret("OPENAI_API_KEY"@),
        name != "MH_API_KEY"@ && name != "OPENAI_API_KEY"@ ==> !is_secret(name),
{
}

/// The tail of an output is its last lines, as many as were asked for, in order,
/// and it says where something is missing.
pub proof fn law_a_tail_is_the_last_lines(
    s: Seq<char>,
    dropped: bool,
    n: nat,
    r: ProcessTail,
    i: int,
)
    requires
        is_tail(s, dropped, n, r),
    ensures
        r.total_lines == lines(s).len(),
        r.truncated <==> dropped || lines(s).len() > n,
        last_lines(lines(s), n).len() == if lines(s).len() < n {
            lines(s).len()
        } else {
            n
        },
        0 <= i < last_lines(lines(s), n).len() ==> last_lines(lines(s), n)[i] == lines(
            s,
        )[lines(s).len() - last_lines(lines(s), n).len() + i],
        lines(s).len() - n <= i < lines(s).len() && 0 <= i ==> contains(r.content@, lines(s)[i]),
{
    let all = lines(s);
    let last = last_lines(all, n);
    if all.len() - n <= i < all.len() && 0 <= i {
        let k = i - (all.len() - last.len());
        assert(last[k] == all[i]);
        law_a_joined_text_shows_its_parts(last, "\n"@, k);
    }
}

/// What is written to a process ends its line, with no more than one line feed
/// added.
pub proof fn law_input_ends_its_line(data: Seq<char>)
    ensures
        input_line(data).last() == '\n',
        input_line(data).len() > 0,
        data.is_prefix_of(input_line(data)),
        data.len() > 0 && data.last() == '\n' ==> input_line(data) == data,
        input_line(data).len() <= data.len() + 1,
{
    assert(data =~= input_line(data).subrange(0, data.len() as int));
}

/// The live processes are those that run.
pub proof fn law_the_live_are_those_that_run(
    entries: Seq<ProcessEntry>,
    entry: ProcessEntry,
    i: int,
)
    ensures
        live_count(Seq::empty()) == 0,
        entry.snap.state is Running ==> live_count(entries.push(entry)) == live_count(entries) + 1,
        !(entry.snap.state is Running) ==> live_count(entries.push(entry)) == live_count(entries),
        0 <= i < entries.len() && entries[i].snap.state is Running ==> live_count(entries) > 0,
    decreases entries.len(),
{
    assert(entries.push(entry).drop_last() =~= entries);
    if 0 <= i < entries.len() - 1 {
        assert(entries.drop_last()[i] == entries[i]);
        law_the_live_are_those_that_run(entries.drop_last(), entry, i);
    }
}

/// A process is known by its number.
pub proof fn law_a_process_is_known_by_its_number(
    entries: Seq<ProcessEntry>,
    id: ProcessId,
    i: int,
)
    ensures
        0 <= i < entries.len() && entries[i].snap.id == id ==> known(entries, id),
        known(entries, id) ==> exists|j: int|
            0 <= j < entries.len() && (#[trigger] entries[j]).snap.id == id,
        is_at(entries, id, i) <==> 0 <= i < entries.len() && entries[i].snap.id == id,
{
    if 0 <= i < entries.len() && entries[i].snap.id == id {
        assert(is_at(entries, id, i));
    }
    if known(entries, id) {
        let j = choose|j: int| is_at(entries, id, j);
        assert(entries[j].snap.id == id);
    }
}

/// The processes of an owner that are to end are all that run and are the
/// owner's, and no others.
pub proof fn law_all_running_processes_of_an_owner_end(
    entries: Seq<ProcessEntry>,
    owned: spec_fn(ProcessSnapshot) -> bool,
    i: int,
    k: int,
)
    ensures
        0 <= i < entries.len() && entries[i].snap.state is Running && owned(entries[i].snap)
            ==> running_where(entries, owned).contains(entries[i].snap.id),
        0 <= k < running_where(entries, owned).len() ==> exists|j: int|
            0 <= j < entries.len() && (#[trigger] entries[j]).snap.id == running_where(
                entries,
                owned,
            )[k] && entries[j].snap.state is Running && owned(entries[j].snap),
    decreases entries.len(),
{
    if entries.len() > 0 {
        let init = entries.drop_last();
        let was = running_where(init, owned);
        let now = running_where(entries, owned);
        law_all_running_processes_of_an_owner_end(init, owned, i, k);
        if 0 <= i < entries.len() && entries[i].snap.state is Running && owned(entries[i].snap) {
            if i < init.len() {
                assert(init[i] == entries[i]);
                let m = choose|m: int| 0 <= m < was.len() && was[m] == entries[i].snap.id;
                assert(now[m] == was[m]);
            } else {
                assert(now.last() == entries[i].snap.id);
            }
        }
        if 0 <= k < now.len() {
            if k < was.len() {
                let j = choose|j: int|
                    0 <= j < init.len() && (#[trigger] init[j]).snap.id == was[k]
                        && init[j].snap.state is Running && owned(init[j].snap);
                assert(entries[j] == init[j]);
            } else {
                assert(entries[entries.len() - 1] == entries.last());
            }
        }
    }
}

/// A process that a lost runner left running is taken for an orphan, with whether
/// its number is still in use where that is known; every other record stands as
/// it is.
pub proof fn law_a_recovered_process_keeps_its_record(
    recorded: ProcessSnapshot,
    pid_exists: Option<bool>,
)
    ensures
        !(recorded.state is Running) ==> recovered(recorded, pid_exists) == recorded,
        recorded.state is Running ==> recovered(recorded, pid_exists) == (ProcessSnapshot {
            state: ProcessState::Orphaned,
            pid_alive: recovered(recorded, pid_exists).pid_alive,
            ..recorded
        }),
        recorded.state is Running && recorded.pid is Some ==> recovered(
            recorded,
            pid_exists,
        ).pid_alive == pid_exists,
        recorded.state is Running && recorded.pid is None ==> recovered(
            recorded,
            pid_exists,
        ).pid_alive == Some(false),
{
}

/// What is shown of a process is what is known of it, and each stream has its own
/// log.
pub proof fn law_a_process_is_shown_as_it_is(
    a: ProcessSnapshot,
    b: ProcessSnapshot,
    entry: ProcessEntry,
)
    requires
        same_snapshot(a, b),
    ensures
        a.id == b.id,
        a.owner_task == b.owner_task,
        a.owner_agent == b.owner_agent,
        a.argv@ == b.argv@,
        a.cwd@ == b.cwd@,
        a.label == b.label,
        a.pid == b.pid,
        a.state == b.state,
        a.started_at_ms == b.started_at_ms,
        a.exited_at_ms == b.exited_at_ms,
        a.exit_code == b.exit_code,
        a.stdout_bytes == b.stdout_bytes,
        a.stderr_bytes == b.stderr_bytes,
        a.pid_alive == b.pid_alive,
        entry.buffer(ProcessStream::Stdout) == entry.out,
        entry.buffer(ProcessStream::Stderr) == entry.err,
        log_extension(ProcessStream::Stdout) != log_extension(ProcessStream::Stderr),
{
    reveal_strlit("out");
    reveal_strlit("err");
    assert("out"@[0] == 'o');
    assert("err"@[0] == 'e');
}

} // verus!
