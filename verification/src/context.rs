//! Context compiler with priority-aware token budgeting.
//!
//! A task outlives any single context window, so the compiler never renders a
//! whole transcript. It renders durable state (goal, verification, workers,
//! processes, the previous window's checkpoint) and the events of the current
//! window only.
use vstd::prelude::*;
use vstd::string::StringExecFns;
use vstd::utf8::encode_utf8;
use crate::delegation::{known_profile, profile, profile_instruction, AgentAccess};
use crate::goal::{lines_of, section, section_text, titles, titles_of, Blocker, ContextCheckpoint, Line, TaskStatus};
use crate::identity::{same_prelude, same_prelude_spec};
use crate::json::Json;
use crate::session::{newest_from, positions, AgentRecord, EventRecord, EvidenceRecord, ProcessRecord, SessionEvent, TaskView};
use crate::text::{bounded, bounded_text, decimal, decimal_text, join, joined, signed_decimal, signed_text, size_text, text, to_chars, from_chars, is_space_char, trim_end, views};

verus! {

/// How much an item is needed.
#[derive(Clone, Copy, Debug, PartialEq, Eq, PartialOrd, Ord, Structural)]
pub enum Priority {
    Ephemeral,
    Working,
    Sticky,
    Hard,
}

impl Priority {
    /// The place of the priority in the order, from least to most needed.
    pub open spec fn rank(self) -> nat {
        match self {
            Priority::Ephemeral => 0,
            Priority::Working => 1,
            Priority::Sticky => 2,
            Priority::Hard => 3,
        }
    }
}

/// Where an item comes from.
#[derive(Clone, Copy, Debug, PartialEq, Eq, Structural)]
pub enum ContextSource {
    System,
    Task,
    Goal,
    CurrentInstruction,
    WorkState,
    SessionEvent(u64),
    Compaction,
}

/// One piece of context.
#[derive(Clone, Debug, PartialEq, Eq)]
pub struct ContextItem {
    pub source: ContextSource,
    pub priority: Priority,
    pub estimated_tokens: usize,
    pub content: String,
}

/// A piece of context as plain values.
#[verifier::ext_equal]
pub struct ItemView {
    pub source: ContextSource,
    pub priority: Priority,
    pub tokens: nat,
    pub content: Seq<char>,
}

impl View for ContextItem {
    type V = ItemView;

    open spec fn view(&self) -> ItemView {
        ItemView {
            source: self.source,
            priority: self.priority,
            tokens: self.estimated_tokens as nat,
            content: self.content@,
        }
    }
}

/// The items of a list as plain values.
pub open spec fn item_views(items: Seq<ContextItem>) -> Seq<ItemView> {
    items.map_values(|i: ContextItem| i@)
}

/// The context handed to the model.
#[derive(Clone, Debug, PartialEq, Eq)]
pub struct CompiledContext {
    pub items: Vec<ContextItem>,
    pub estimated_tokens: usize,
    pub omitted_items: usize,
}

impl CompiledContext {
    /// The contents of the items, a blank line between neighbours.
    pub open spec fn rendered(self) -> Seq<char> {
        joined(self.items@.map_values(|i: ContextItem| i.content@), "\n\n"@)
    }

    /// The contents of the items, a blank line between neighbours.
    pub fn render(&self) -> (r: String)
        ensures
            r@ == self.rendered(),
    {
        let mut parts: Vec<String> = Vec::new();
        let mut i: usize = 0;
        let ghost all = self.items@.map_values(|i: ContextItem| i.content@);
        while i < self.items.len()
            invariant
                i <= self.items.len(),
                all == self.items@.map_values(|i: ContextItem| i.content@),
                views(parts@) == all.take(i as int),
            decreases self.items.len() - i,
        {
            let ghost before = parts@;
            parts.push(self.items[i].content.clone());
            proof {
                assert(views(parts@) =~= views(before).push(all[i as int]));
                assert(all.take(i + 1) =~= all.take(i as int).push(all[i as int]));
            }
            i = i + 1;
        }
        proof {
            assert(all.take(i as int) =~= all);
        }
        join(&parts, "\n\n")
    }
}

/// Why no context could be compiled.
#[derive(Clone, Copy, Debug, PartialEq, Eq, Structural)]
pub enum ContextError {
    HardOverflow { required_tokens: usize, max_tokens: usize },
}

impl ContextError {
    /// The message of the error.
    pub open spec fn text(self) -> Seq<char> {
        match self {
            ContextError::HardOverflow { required_tokens, max_tokens } => "hard context requires "@
                + decimal(required_tokens as nat) + " tokens, exceeding maximum "@ + decimal(
                max_tokens as nat,
            ),
        }
    }

    /// The message of the error.
    pub fn message(&self) -> (r: String)
        ensures
            r@ == self.text(),
    {
        match self {
            ContextError::HardOverflow { required_tokens, max_tokens } => {
                let mut s = text("hard context requires ");
                s.append(size_text(*required_tokens).as_str());
                s.append(" tokens, exceeding maximum ");
                s.append(size_text(*max_tokens).as_str());
                s
            },
        }
    }
}

/// Largest prelude description admitted into context.
pub const MAX_PRELUDE_DESCRIPTION_BYTES: usize = 4096;

/// The standing instructions of the agent.
pub const SYSTEM_PROMPT: &'static str = r#"You are mh, a coding agent running as a durable task. Use the provider function `ptc` whenever work requires repository access.

The task is durable; your context window is not. Plain text is a progress message to the user and NEVER completes the task. Completion happens only when finish(...) is accepted. When you have nothing left to do, call finish(). When you are waiting on the user, say so in text and stop.

Because your context window will be replaced while the task continues, record durable state as you go with goal(...): pending work, completed work, decisions, findings, and failed approaches. Anything you do not record is lost at the next rollover.

PTC JavaScript uses var/function/return/if/for/while and these synchronous globals:
- tool(name, args) — canonical host ABI
- read(path) -> {path, content, totalLines, truncated}; use `.content` for file text
- write(path, content) -> {ok, path, bytes}; edit({path, old, new}) -> {ok, path}
- glob(pattern) -> string[] with `.truncated`
- grep({pattern, path|paths, max?}) -> match[] with `.truncated`
- exec({command: [program, ...args], timeout_ms?}) — foreground command; waits for exit
- batch(name, args[]) — bounded parallel read/grep/glob/exec; preserves input order

Durable task state:
- goal({objective?, acceptanceCriteria?, completed?, pending?, blockers?, decisions?, findings?, failedApproaches?, nextActions?}) — each field replaces that list
- finish({summary, unresolved?, evidence?, force?}) -> {accepted, objections, waived}. A refusal explains what to resolve; it is a value, not an error. force only waives judgement about remaining work, never a live worker, running process, unmerged delta, or failed verification.
- evidence(kind, ok, metadata?) — record verification against the current workspace revision

Asynchronous workers (the root agent keeps working while they run):
- agent_spawn({task, access|profile, context?}) -> status with `.agent`; returns immediately
- agent_poll(agent) -> status; agent_list() -> status[]
- agent_join(agent) -> result; agent_cancel(agent); agent_send(agent, message)
- access is "read" or "isolated-write"; profiles are explore, implement, review, test
- delegate(options) and delegate_batch(options[]) still exist: spawn plus join
- integrate(workspace) — explicitly apply an isolated worker delta or return a structured conflict

Long-lived processes (never use exec for a dev server, watcher, or long build):
- process_spawn({command: [...], cwd?, env?, label?}) -> snapshot with `.id`; returns immediately
- process_poll(id), process_tail(id, "stdout"|"stderr", lines), process_wait(id, timeout_ms?), process_kill(id), process_write(id, data), process_list()

Workspace state:
- checkpoint() -> {id, revision}; restore(checkpoint) — restoration is never automatic

Use one PTC program for related work. Use batch() for procedural independent host operations. Use workers only for independent model reasoning; they receive bounded context, not your conversation. isolated-write work never changes the parent until integrate(). After integration, re-run verification in the parent because worker evidence remains attributed to the worker revision. Treat verification as fresh only when its revision equals the current workspace revision. Do not emulate concurrency with Promise or async JavaScript. write/edit/restore are not batch-safe. exec runs an OS subprocess; it is not the provider PTC entry point.

exec returns {exitCode, durationMs, stdout, stderr}. stdout/stderr are handles with:
.read(offset?, limit?), .head(n), .tail(n), .grep(pattern, limit?), .json(),
.id, .length, .totalBytes, .truncated, .kind.
All filesystem access is confined to the workspace. Commands are argv arrays, never shell strings. Subprocesses use the workspace as cwd but otherwise have host OS capabilities; provider credentials are removed from their environment.
Do not use require, import, fetch, process, fs, async/await, Promise, let, or const. If a structured diagnostic reports unsupported lexical syntax, replace let/const with var.
Use a top-level return statement. Large raw tool output stays in handles; return only evidence needed for the next inference."#;

/// The standing instructions of the agent.
pub fn canonical_system_prompt() -> (r: &'static str)
    ensures
        r@ == SYSTEM_PROMPT@,
{
    SYSTEM_PROMPT
}

/// The weight of encoded text: one for an ASCII byte, two for any other.
pub open spec fn weight(bytes: Seq<u8>) -> nat
    decreases bytes.len(),
{
    if bytes.len() == 0 {
        0
    } else {
        weight(bytes.drop_last()) + if bytes.last() < 128 {
            1nat
        } else {
            2nat
        }
    }
}

/// The estimated number of tokens of a text: a quarter of its weight, rounded
/// up, and at least one.
pub open spec fn tokens_of(s: Seq<char>) -> nat {
    let quarter = (weight(encode_utf8(s)) + 3) / 4;
    if quarter == 0 {
        1
    } else {
        quarter
    }
}

/// Conservative estimate of the number of tokens of a text.
pub fn estimate_tokens(s: &str) -> (r: usize)
    ensures
        r == tokens_of(s@),
{
    let bytes = s.as_bytes();
    let mut total: u128 = 0;
    let mut i: usize = 0;
    let ghost all = encode_utf8(s@);
    while i < bytes.len()
        invariant
            i <= bytes.len(),
            bytes@ == all,
            total == weight(all.take(i as int)),
            total <= 2 * i,
        decreases bytes.len() - i,
    {
        proof {
            assert(all.take(i + 1).drop_last() =~= all.take(i as int));
        }
        if bytes[i] < 128 {
            total = total + 1;
        } else {
            total = total + 2;
        }
        i = i + 1;
    }
    proof {
        assert(all.take(i as int) =~= all);
    }
    let quarter: usize = ((total + 3) / 4) as usize;
    if quarter == 0 {
        1
    } else {
        quarter
    }
}

/// An item with the estimate of its content.
pub open spec fn item_view(source: ContextSource, priority: Priority, content: Seq<char>) -> ItemView {
    ItemView { source, priority, tokens: tokens_of(content), content }
}

/// An item with the estimate of its content.
pub fn item(source: ContextSource, priority: Priority, content: String) -> (r: ContextItem)
    ensures
        r@ == item_view(source, priority, content@),
{
    ContextItem { estimated_tokens: estimate_tokens(content.as_str()), source, priority, content }
}

/// Addition that stops at the largest size.
pub open spec fn capped_add(a: nat, b: nat) -> nat {
    if a + b > usize::MAX {
        usize::MAX as nat
    } else {
        a + b
    }
}

/// What the hard items take together.
pub open spec fn required(items: Seq<ItemView>) -> nat
    decreases items.len(),
{
    if items.len() == 0 {
        0
    } else if items.last().priority is Hard {
        capped_add(required(items.drop_last()), items.last().tokens)
    } else {
        required(items.drop_last())
    }
}

/// Which items are kept so far, and what they take.
#[verifier::ext_equal]
pub struct Picked {
    pub used: nat,
    pub keep: Seq<bool>,
}

/// The hard items, before any other is considered.
pub open spec fn hard_only(items: Seq<ItemView>) -> Picked {
    Picked {
        used: required(items),
        keep: items.map_values(|i: ItemView| i.priority is Hard),
    }
}

/// Considers item `i`: it is kept where it still fits.
pub open spec fn consider(items: Seq<ItemView>, max: nat, p: Picked, i: int) -> Picked {
    if p.used + items[i].tokens <= max {
        Picked { used: p.used + items[i].tokens, keep: p.keep.update(i, true) }
    } else {
        p
    }
}

/// Considers the first `n` items of one priority, the latest first.
pub open spec fn consider_rank(items: Seq<ItemView>, max: nat, p: Picked, rank: nat, n: int) -> Picked
    decreases n,
{
    if n <= 0 {
        p
    } else if items[n - 1].priority.rank() == rank {
        consider_rank(items, max, consider(items, max, p, n - 1), rank, n - 1)
    } else {
        consider_rank(items, max, p, rank, n - 1)
    }
}

/// The selection: the hard items, then sticky, working and ephemeral ones, in
/// each case the latest first, each kept where it still fits.
pub open spec fn picked(items: Seq<ItemView>, max: nat) -> Picked {
    let n = items.len() as int;
    let sticky = consider_rank(items, max, hard_only(items), 2, n);
    let working = consider_rank(items, max, sticky, 1, n);
    consider_rank(items, max, working, 0, n)
}

/// The items that are kept, in their order.
pub open spec fn kept(items: Seq<ItemView>, keep: Seq<bool>) -> Seq<ItemView>
    decreases items.len(),
{
    if items.len() == 0 {
        Seq::empty()
    } else {
        let init = kept(items.drop_last(), keep);
        if keep[items.len() - 1] {
            init.push(items.last())
        } else {
            init
        }
    }
}

/// Whether `r` is the outcome of selecting from `items` under `max`.
pub open spec fn is_selection(
    items: Seq<ItemView>,
    max: nat,
    r: Result<CompiledContext, ContextError>,
) -> bool {
    if required(items) > max {
        r matches Err(ContextError::HardOverflow { required_tokens, max_tokens })
            && required_tokens == required(items) && max_tokens == max
    } else {
        &&& r matches Ok(compiled)
        &&& item_views(compiled.items@) == kept(items, picked(items, max).keep)
        &&& compiled.estimated_tokens == picked(items, max).used
        &&& compiled.omitted_items == left_out(picked(items, max).keep)
    }
}

/// What the kept items take together.
pub open spec fn kept_tokens(items: Seq<ItemView>, keep: Seq<bool>) -> nat
    decreases items.len(),
{
    if items.len() == 0 {
        0
    } else {
        kept_tokens(items.drop_last(), keep) + if keep[items.len() - 1] {
            items.last().tokens
        } else {
            0
        }
    }
}

/// How many items are left out.
pub open spec fn left_out(keep: Seq<bool>) -> nat
    decreases keep.len(),
{
    if keep.len() == 0 {
        0
    } else {
        left_out(keep.drop_last()) + if keep.last() {
            0nat
        } else {
            1nat
        }
    }
}

proof fn lemma_consider_rank_inv(items: Seq<ItemView>, max: nat, p: Picked, rank: nat, n: int)
    requires
        p.keep.len() == items.len(),
        p.used <= max,
        forall|i: int| 0 <= i < items.len() && items[i].priority is Hard ==> #[trigger] p.keep[i],
        0 <= n <= items.len(),
    ensures
        ({
            let q = consider_rank(items, max, p, rank, n);
            &&& q.keep.len() == items.len()
            &&& q.used <= max
            &&& forall|i: int|
                0 <= i < items.len() && items[i].priority is Hard ==> #[trigger] q.keep[i]
        }),
    decreases n,
{
    if n > 0 {
        if items[n - 1].priority.rank() == rank {
            lemma_consider_rank_inv(items, max, consider(items, max, p, n - 1), rank, n - 1);
        } else {
            lemma_consider_rank_inv(items, max, p, rank, n - 1);
        }
    }
}

/// A selection never takes more than the maximum, and never leaves out a hard
/// item.
pub proof fn law_selection_keeps_hard_items_within_budget(items: Seq<ItemView>, max: nat)
    requires
        required(items) <= max,
    ensures
        picked(items, max).used <= max,
        picked(items, max).keep.len() == items.len(),
        forall|i: int|
            0 <= i < items.len() && items[i].priority is Hard
                ==> #[trigger] picked(items, max).keep[i],
{
    let n = items.len() as int;
    let start = hard_only(items);
    let sticky = consider_rank(items, max, start, 2, n);
    let working = consider_rank(items, max, sticky, 1, n);
    lemma_consider_rank_inv(items, max, start, 2, n);
    lemma_consider_rank_inv(items, max, sticky, 1, n);
    lemma_consider_rank_inv(items, max, working, 0, n);
}

pub proof fn lemma_kept_tokens_update(items: Seq<ItemView>, keep: Seq<bool>, i: int)
    requires
        items.len() <= keep.len(),
        0 <= i < keep.len(),
        !keep[i],
    ensures
        kept_tokens(items, keep.update(i, true)) == kept_tokens(items, keep) + if i < items.len() {
            items[i].tokens
        } else {
            0
        },
    decreases items.len(),
{
    if items.len() > 0 {
        lemma_kept_tokens_update(items.drop_last(), keep, i);
    }
}

/// The flags of the items of one priority or above it are settled; the others
/// are not considered yet.
pub open spec fn untouched(items: Seq<ItemView>, p: Picked, rank: nat, n: int) -> bool {
    &&& p.keep.len() == items.len()
    &&& forall|i: int|
        #![trigger p.keep[i]]
        0 <= i < items.len() && (items[i].priority.rank() < rank || (items[i].priority.rank()
            == rank && i < n)) ==> !p.keep[i]
}

pub proof fn lemma_consider_rank_tokens(items: Seq<ItemView>, max: nat, p: Picked, rank: nat, n: int)
    requires
        untouched(items, p, rank, n),
        p.used == kept_tokens(items, p.keep),
        0 <= n <= items.len(),
    ensures
        ({
            let q = consider_rank(items, max, p, rank, n);
            &&& q.used == kept_tokens(items, q.keep)
            &&& q.keep.len() == items.len()
            &&& forall|i: int|
                #![trigger q.keep[i]]
                0 <= i < items.len() && items[i].priority.rank() < rank ==> !q.keep[i]
        }),
    decreases n,
{
    if n > 0 {
        if items[n - 1].priority.rank() == rank {
            let q = consider(items, max, p, n - 1);
            if p.used + items[n - 1].tokens <= max {
                assert(!p.keep[n - 1]);
                lemma_kept_tokens_update(items, p.keep, n - 1);
            }
            lemma_consider_rank_tokens(items, max, q, rank, n - 1);
        } else {
            lemma_consider_rank_tokens(items, max, p, rank, n - 1);
        }
    }
}

pub proof fn lemma_hard_only_tokens(items: Seq<ItemView>, keep: Seq<bool>)
    requires
        keep.len() >= items.len(),
        forall|i: int| 0 <= i < items.len() ==> #[trigger] keep[i] == (items[i].priority is Hard),
        required(items) < usize::MAX,
    ensures
        required(items) == kept_tokens(items, keep),
    decreases items.len(),
{
    if items.len() > 0 {
        let init = items.drop_last();
        assert forall|i: int| 0 <= i < init.len() implies #[trigger] keep[i] == (
        init[i].priority is Hard) by {
            assert(init[i] == items[i]);
        }
        lemma_hard_only_tokens(init, keep);
    }
}

/// The reported estimate is the sum over the items that are kept, as long as
/// the hard items alone stay below the largest size.
pub proof fn law_estimate_is_the_sum_of_kept_items(items: Seq<ItemView>, max: nat)
    requires
        required(items) <= max,
        required(items) < usize::MAX,
    ensures
        picked(items, max).used == kept_tokens(items, picked(items, max).keep),
{
    let n = items.len() as int;
    let start = hard_only(items);
    assert forall|i: int| 0 <= i < items.len() implies #[trigger] start.keep[i] == (
    items[i].priority is Hard) by {}
    lemma_hard_only_tokens(items, start.keep);
    let sticky = consider_rank(items, max, start, 2, n);
    let working = consider_rank(items, max, sticky, 1, n);
    lemma_consider_rank_tokens(items, max, start, 2, n);
    lemma_consider_rank_tokens(items, max, sticky, 1, n);
    lemma_consider_rank_tokens(items, max, working, 0, n);
}

/// Compiles what the journal says of a task into the context of one model call.
#[derive(Clone, Debug, PartialEq, Eq)]
pub struct ContextCompiler {
    /// Hard ceiling: compiling above this fails rather than dropping required
    /// context.
    pub max_tokens: usize,
    /// Rollover threshold.
    pub soft_limit_tokens: usize,
    pub system_prompt: String,
    /// Tool documentation of the active prelude, if any.
    pub prelude_tools: Option<String>,
}

impl Default for ContextCompiler {
    fn default() -> (r: ContextCompiler)
        ensures
            r.max_tokens == 32_000,
            r.soft_limit_tokens == 24_000,
            r.system_prompt@ == SYSTEM_PROMPT@,
            r.prelude_tools is None,
    {
        ContextCompiler {
            max_tokens: 32_000,
            soft_limit_tokens: 24_000,
            system_prompt: text(canonical_system_prompt()),
            prelude_tools: None,
        }
    }
}

/// What a worker of the given access is told about its limits.
pub open spec fn capability_text(access: AgentAccess) -> Seq<char> {
    match access {
        AgentAccess::Read => "You may read the workspace. Writes and subprocesses are disabled."@,
        AgentAccess::IsolatedWrite =>
        "You work in a private workspace forked from the parent revision. Your changes reach the parent only if the parent integrates them."@,
    }
}

/// The line on a worker's profile; nothing where it names no known one.
pub open spec fn profile_text(profile: Option<String>) -> Seq<char> {
    match profile {
        Some(name) => if known_profile(name@) {
            "\nProfile "@ + name@ + ": "@ + profile_instruction(name@)
        } else {
            Seq::empty()
        },
        None => Seq::empty(),
    }
}

/// The places of the current window that decide which events are rendered.
#[derive(Clone, Copy, Debug, PartialEq, Eq, Structural)]
pub struct WindowMarks {
    pub user: Option<u64>,
    pub assistant: Option<u64>,
    pub completed: Option<u64>,
    pub failed: Option<u64>,
    pub dialogue_start: u64,
}

/// Whether an event belongs to the current window of the task.
pub open spec fn in_window(view: TaskView, record: EventRecord) -> bool {
    record.seq >= view.window_start_seq && record.event.owner() == Some(view.task_id)
}

/// The events of the current window.
pub open spec fn window_of(view: TaskView, events: Seq<EventRecord>) -> Seq<EventRecord> {
    events.filter(|r: EventRecord| in_window(view, r))
}

/// The place of the last event of which `pred` holds.
pub open spec fn last_seq(records: Seq<EventRecord>, pred: spec_fn(EventRecord) -> bool) -> Option<u64>
    decreases records.len(),
{
    if records.len() == 0 {
        None
    } else if pred(records.last()) {
        Some(records.last().seq)
    } else {
        last_seq(records.drop_last(), pred)
    }
}

pub open spec fn speaks_for_user(r: EventRecord) -> bool {
    r.event is UserMessage || r.event is SteeringApplied
}

pub open spec fn is_assistant(r: EventRecord) -> bool {
    r.event is AssistantMessage
}

pub open spec fn is_completed(r: EventRecord) -> bool {
    r.event is PtcCompleted
}

pub open spec fn is_failed(r: EventRecord) -> bool {
    r.event is PtcFailed
}

pub open spec fn is_dialogue(r: EventRecord) -> bool {
    r.event is UserMessage || r.event is AssistantMessage
}

/// The places of the messages between user and assistant.
pub open spec fn dialogue_seqs(records: Seq<EventRecord>) -> Seq<u64> {
    records.filter(|r: EventRecord| is_dialogue(r)).map_values(|r: EventRecord| r.seq)
}

/// The marks of a window. The dialogue starts at the sixth message from its
/// end, or at the beginning where there are fewer.
pub open spec fn marks_of(window: Seq<EventRecord>) -> WindowMarks {
    let dialogue = dialogue_seqs(window);
    WindowMarks {
        user: last_seq(window, |r: EventRecord| speaks_for_user(r)),
        assistant: last_seq(window, |r: EventRecord| is_assistant(r)),
        completed: last_seq(window, |r: EventRecord| is_completed(r)),
        failed: last_seq(window, |r: EventRecord| is_failed(r)),
        dialogue_start: if dialogue.len() >= 6 {
            dialogue[dialogue.len() - 6]
        } else {
            0
        },
    }
}

/// The item of one event, where it has one.
pub open spec fn event_view(record: EventRecord, marks: WindowMarks) -> Option<ItemView> {
    let source = ContextSource::SessionEvent(record.seq);
    match record.event {
        SessionEvent::UserMessage { content, .. } => if Some(record.seq) != marks.user && record.seq
            >= marks.dialogue_start {
            Some(item_view(source, Priority::Ephemeral, "[recent conversation]\nUser: "@ + content@))
        } else {
            None
        },
        SessionEvent::AssistantMessage { content, .. } => if Some(record.seq) == marks.assistant
            || record.seq >= marks.dialogue_start {
            Some(
                item_view(
                    source,
                    if Some(record.seq) == marks.assistant {
                        Priority::Sticky
                    } else {
                        Priority::Ephemeral
                    },
                    "[recent conversation]\nAssistant: "@ + content@,
                ),
            )
        } else {
            None
        },
        SessionEvent::PtcCompleted { value, .. } => if Some(record.seq) == marks.completed {
            Some(
                item_view(
                    source,
                    Priority::Working,
                    "[latest relevant PTC result]\n"@ + bounded(value.pretty(), 16384),
                ),
            )
        } else {
            None
        },
        SessionEvent::PtcFailed { error, value, .. } => if Some(record.seq) == marks.failed {
            Some(
                item_view(
                    source,
                    Priority::Working,
                    "[latest PTC failure]\n"@ + error@ + "\n"@ + bounded(value.pretty(), 8192),
                ),
            )
        } else {
            None
        },
        SessionEvent::FinishProposed { verdict, .. } => if !verdict.accepted {
            Some(item_view(source, Priority::Working, verdict.explanation()))
        } else {
            None
        },
        SessionEvent::RepeatedActionDetected { fingerprint, .. } => Some(
            item_view(
                source,
                Priority::Working,
                "The previous action was repeated without changing the result. Choose a different approach instead of retrying the same PTC program. Fingerprint: "@
                    + fingerprint@,
            ),
        ),
        _ => None,
    }
}

/// The items of a window's events, in order.
pub open spec fn event_views(records: Seq<EventRecord>, marks: WindowMarks) -> Seq<ItemView>
    decreases records.len(),
{
    if records.len() == 0 {
        Seq::empty()
    } else {
        let init = event_views(records.drop_last(), marks);
        match event_view(records.last(), marks) {
            Some(v) => init.push(v),
            None => init,
        }
    }
}

/// The value in indented form, bounded to `max` bytes.
pub fn bounded_json(value: &Json, max: usize) -> (r: String)
    ensures
        r@ == bounded(value.pretty(), max as nat),
{
    bounded_text(value.pretty_text().as_str(), max)
}

/// The item of one event, where it has one.
pub fn event_item(record: &EventRecord, marks: WindowMarks) -> (r: Option<ContextItem>)
    ensures
        match r {
            Some(i) => event_view(*record, marks) == Some(i@),
            None => event_view(*record, marks) is None,
        },
{
    let source = ContextSource::SessionEvent(record.seq);
    let is_latest_user = match marks.user {
        Some(seq) => seq == record.seq,
        None => false,
    };
    let is_latest_assistant = match marks.assistant {
        Some(seq) => seq == record.seq,
        None => false,
    };
    let is_latest_completed = match marks.completed {
        Some(seq) => seq == record.seq,
        None => false,
    };
    let is_latest_failed = match marks.failed {
        Some(seq) => seq == record.seq,
        None => false,
    };
    match &record.event {
        SessionEvent::UserMessage { content, .. } => {
            if !is_latest_user && record.seq >= marks.dialogue_start {
                let mut s = text("[recent conversation]\nUser: ");
                s.append(content.as_str());
                Some(item(source, Priority::Ephemeral, s))
            } else {
                None
            }
        },
        SessionEvent::AssistantMessage { content, .. } => {
            if is_latest_assistant || record.seq >= marks.dialogue_start {
                let mut s = text("[recent conversation]\nAssistant: ");
                s.append(content.as_str());
                let priority = if is_latest_assistant {
                    Priority::Sticky
                } else {
                    Priority::Ephemeral
                };
                Some(item(source, priority, s))
            } else {
                None
            }
        },
        SessionEvent::PtcCompleted { value, .. } => {
            if is_latest_completed {
                let mut s = text("[latest relevant PTC result]\n");
                s.append(bounded_json(value, 16384).as_str());
                Some(item(source, Priority::Working, s))
            } else {
                None
            }
        },
        SessionEvent::PtcFailed { error, value, .. } => {
            if is_latest_failed {
                let mut s = text("[latest PTC failure]\n");
                s.append(error.as_str());
                s.append("\n");
                s.append(bounded_json(value, 8192).as_str());
                Some(item(source, Priority::Working, s))
            } else {
                None
            }
        },
        SessionEvent::FinishProposed { verdict, .. } => {
            if !verdict.accepted {
                Some(item(source, Priority::Working, verdict.explain()))
            } else {
                None
            }
        },
        SessionEvent::RepeatedActionDetected { fingerprint, .. } => {
            let mut s = text(
                "The previous action was repeated without changing the result. Choose a different approach instead of retrying the same PTC program. Fingerprint: ",
            );
            s.append(fingerprint.as_str());
            Some(item(source, Priority::Working, s))
        },
        _ => None,
    }
}

/// The summaries of a list of blockers.
pub open spec fn blocker_summaries(blockers: Seq<Blocker>) -> Seq<Seq<char>> {
    blockers.map_values(|b: Blocker| b.summary@)
}

fn summaries(blockers: &Vec<Blocker>) -> (r: Vec<String>)
    ensures
        views(r@) == blocker_summaries(blockers@),
{
    let mut out: Vec<String> = Vec::new();
    let mut i: usize = 0;
    let ghost all = blocker_summaries(blockers@);
    while i < blockers.len()
        invariant
            i <= blockers.len(),
            all == blocker_summaries(blockers@),
            views(out@) == all.take(i as int),
        decreases blockers.len() - i,
    {
        let ghost before = out@;
        out.push(blockers[i].summary.clone());
        proof {
            assert(views(out@) =~= views(before).push(all[i as int]));
            assert(all.take(i + 1) =~= all.take(i as int).push(all[i as int]));
        }
        i = i + 1;
    }
    proof {
        assert(all.take(i as int) =~= all);
    }
    out
}

/// What a parked task is told.
pub open spec fn parked_note(status: TaskStatus) -> Seq<char> {
    if status is WaitingUser {
        "\n\nThis task is parked awaiting the user. It is NOT complete; plain text did not finish it."@
    } else {
        Seq::empty()
    }
}

/// The durable goal of the task as text.
pub open spec fn goal_text(view: TaskView) -> Seq<char> {
    "[goal state]\nstatus: "@ + view.goal.status.name() + "\ncontext window: "@ + decimal(
        view.window as nat,
    ) + "\nturns in this window: "@ + decimal(view.turns_in_window as nat) + section_text(
        "acceptance criteria"@,
        lines_of(view.goal.acceptance_criteria@),
    ) + section_text("completed work"@, titles_of(view.goal.completed_work@)) + section_text(
        "pending work"@,
        titles_of(view.goal.pending_work@),
    ) + section_text("blockers"@, blocker_summaries(view.goal.blockers@)) + section_text(
        "next actions"@,
        views(view.goal.next_actions@),
    ) + parked_note(view.goal.status)
}

/// Renders durable goal state: the part of the task that outlives the window.
pub fn render_goal_state(view: &TaskView) -> (r: String)
    ensures
        r@ == goal_text(*view),
{
    let goal = &view.goal;
    let mut out = text("[goal state]\nstatus: ");
    out.append(goal.status.label());
    out.append("\ncontext window: ");
    out.append(decimal_text(view.window as u64).as_str());
    out.append("\nturns in this window: ");
    out.append(size_text(view.turns_in_window).as_str());
    section(&mut out, "acceptance criteria", &goal.acceptance_criteria);
    let completed = titles(&goal.completed_work);
    section(&mut out, "completed work", &completed);
    let pending = titles(&goal.pending_work);
    section(&mut out, "pending work", &pending);
    let blockers = summaries(&goal.blockers);
    section(&mut out, "blockers", &blockers);
    section(&mut out, "next actions", &goal.next_actions);
    proof {
        assert(lines_of(completed@) =~= views(completed@));
        assert(lines_of(pending@) =~= views(pending@));
        assert(lines_of(blockers@) =~= views(blockers@));
        assert(lines_of(goal.next_actions@) =~= views(goal.next_actions@));
    }
    match goal.status {
        TaskStatus::WaitingUser => {
            out.append(
                "\n\nThis task is parked awaiting the user. It is NOT complete; plain text did not finish it.",
            );
        },
        _ => {
            proof {
                assert(out@ + parked_note(goal.status) =~= out@);
            }
        },
    }
    out
}

/// Each text led by a dash.
pub open spec fn dashed_lines(items: Seq<Seq<char>>) -> Seq<Seq<char>> {
    items.map_values(|s: Seq<char>| "- "@ + s)
}

/// The lines one below the other, or a line that says there are none.
pub open spec fn listing(lines: Seq<Seq<char>>) -> Seq<char> {
    if lines.len() == 0 {
        "- none"@
    } else {
        joined(lines, "\n"@)
    }
}

/// How a verification stands to the present workspace and tool environment.
pub open spec fn freshness(view: TaskView, record: EvidenceRecord) -> Seq<char> {
    if record.revision.0@ != view.goal.current_revision.0@ {
        "stale"@
    } else if same_prelude_spec(record.prelude, view.prelude) {
        "fresh"@
    } else {
        "stale — recorded under a different prelude"@
    }
}

/// The line of one verification.
pub open spec fn evidence_line(view: TaskView, record: EvidenceRecord) -> Seq<char> {
    let main = "- "@ + record.kind@ + ": "@ + (if record.ok {
        "PASS"@
    } else {
        "FAIL"@
    }) + " @ "@ + record.revision.0@ + " — "@ + freshness(view, record);
    match record.note {
        Some(note) => main + " — "@ + note@,
        None => main,
    }
}

/// The lines of the newest verification of each kind.
pub open spec fn evidence_lines(view: TaskView) -> Seq<Seq<char>> {
    newest_from(view.evidence@, 0).map_values(|i: int| evidence_line(view, view.evidence@[i]))
}

fn render_evidence(view: &TaskView, record: &EvidenceRecord) -> (r: String)
    ensures
        r@ == evidence_line(*view, *record),
{
    let mut s = text("- ");
    s.append(record.kind.as_str());
    s.append(": ");
    if record.ok {
        s.append("PASS");
    } else {
        s.append("FAIL");
    }
    s.append(" @ ");
    s.append(record.revision.0.as_str());
    s.append(" — ");
    if !record.revision.same(&view.goal.current_revision) {
        s.append("stale");
    } else if same_prelude(&record.prelude, &view.prelude) {
        s.append("fresh");
    } else {
        s.append("stale — recorded under a different prelude");
    }
    match &record.note {
        Some(note) => {
            s.append(" — ");
            s.append(note.as_str());
        },
        None => {},
    }
    s
}

impl Line for AgentRecord {
    open spec fn line(&self) -> Seq<char> {
        let main = "agent "@ + decimal(self.agent.0 as nat) + " ["@ + self.state.name() + "] "@
            + self.objective@ + " ("@ + self.access.name() + ")"@;
        match self.result {
            Some(result) => main + " — "@ + bounded(result.summary@, 300),
            None => main,
        }
    }

    fn line_text(&self) -> (r: String) {
        let mut s = text("agent ");
        s.append(decimal_text(self.agent.0).as_str());
        s.append(" [");
        s.append(self.state.label());
        s.append("] ");
        s.append(self.objective.as_str());
        s.append(" (");
        s.append(self.access.label());
        s.append(")");
        match &self.result {
            Some(result) => {
                s.append(" — ");
                s.append(bounded_text(result.summary.as_str(), 300).as_str());
            },
            None => {},
        }
        s
    }
}

impl Line for ProcessRecord {
    open spec fn line(&self) -> Seq<char> {
        let main = "process "@ + decimal(self.process.0 as nat) + " ["@ + self.state@ + "] "@
            + joined(views(self.argv@), " "@);
        match self.exit_code {
            Some(code) => main + " exit "@ + signed_decimal(code as int),
            None => main,
        }
    }

    fn line_text(&self) -> (r: String) {
        let mut s = text("process ");
        s.append(decimal_text(self.process.0).as_str());
        s.append(" [");
        s.append(self.state.as_str());
        s.append("] ");
        s.append(join(&self.argv, " ").as_str());
        match self.exit_code {
            Some(code) => {
                s.append(" exit ");
                s.append(signed_text(code).as_str());
            },
            None => {},
        }
        s
    }
}

/// The section on workers, with its reminder.
pub open spec fn workers_text(agents: Seq<AgentRecord>) -> Seq<char> {
    if agents.len() == 0 {
        Seq::empty()
    } else {
        section_text("workers"@, lines_of(agents))
            + "\nUnresolved workers block finish(): join or cancel each one before completing."@
    }
}

/// The state of the work as text.
pub open spec fn work_text(view: TaskView) -> Seq<char> {
    "[working state]\ntask: "@ + decimal(view.task_id.0 as nat) + "\nbase revision: "@ + (
    match view.base_revision {
        Some(revision) => revision.0@,
        None => "none"@,
    }) + "\ncurrent revision: "@ + view.goal.current_revision.0@ + "\n\nworkspace changes:\n"@
        + listing(dashed_lines(views(view.changed_paths@))) + "\n\nverification:\n"@ + listing(
        evidence_lines(view),
    ) + workers_text(view.agents@) + section_text(
        "background processes"@,
        lines_of(view.processes@),
    )
}

fn render_changes(paths: &Vec<String>) -> (r: String)
    ensures
        r@ == listing(dashed_lines(views(paths@))),
{
    let ghost all = dashed_lines(views(paths@));
    if paths.is_empty() {
        return text("- none");
    }
    let mut lines: Vec<String> = Vec::new();
    let mut i: usize = 0;
    while i < paths.len()
        invariant
            i <= paths.len(),
            all == dashed_lines(views(paths@)),
            views(lines@) == all.take(i as int),
        decreases paths.len() - i,
    {
        let mut line = text("- ");
        line.append(paths[i].as_str());
        let ghost before = lines@;
        lines.push(line);
        proof {
            assert(views(lines@) =~= views(before).push(all[i as int]));
            assert(all.take(i + 1) =~= all.take(i as int).push(all[i as int]));
        }
        i = i + 1;
    }
    proof {
        assert(all.take(i as int) =~= all);
    }
    join(&lines, "\n")
}

fn render_verification(view: &TaskView) -> (r: String)
    ensures
        r@ == listing(evidence_lines(*view)),
{
    let newest = view.latest_evidence();
    let ghost all = evidence_lines(*view);
    proof {
        assert(positions(newest@).len() == all.len());
    }
    if newest.is_empty() {
        return text("- none");
    }
    let mut lines: Vec<String> = Vec::new();
    let mut i: usize = 0;
    while i < newest.len()
        invariant
            i <= newest.len(),
            newest.len() == all.len(),
            all == evidence_lines(*view),
            positions(newest@) == newest_from(view.evidence@, 0),
            forall|k: int| 0 <= k < newest.len() ==> (#[trigger] newest@[k]) < view.evidence@.len(),
            views(lines@) == all.take(i as int),
        decreases newest.len() - i,
    {
        let k: usize = newest[i];
        let line = render_evidence(view, &view.evidence[k]);
        proof {
            assert(positions(newest@)[i as int] == k as int);
            assert(all[i as int] == line@);
        }
        let ghost before = lines@;
        lines.push(line);
        proof {
            assert(views(lines@) =~= views(before).push(all[i as int]));
            assert(all.take(i + 1) =~= all.take(i as int).push(all[i as int]));
        }
        i = i + 1;
    }
    proof {
        assert(all.take(i as int) =~= all);
    }
    join(&lines, "\n")
}

/// Renders the state of the work: changes, verification, workers, processes.
pub fn render_work_state(view: &TaskView) -> (r: String)
    ensures
        r@ == work_text(*view),
{
    let mut out = text("[working state]\ntask: ");
    out.append(decimal_text(view.task_id.0).as_str());
    out.append("\nbase revision: ");
    match &view.base_revision {
        Some(revision) => out.append(revision.0.as_str()),
        None => out.append("none"),
    }
    out.append("\ncurrent revision: ");
    out.append(view.goal.current_revision.0.as_str());
    out.append("\n\nworkspace changes:\n");
    out.append(render_changes(&view.changed_paths).as_str());
    out.append("\n\nverification:\n");
    out.append(render_verification(view).as_str());
    let mut workers = String::new();
    if !view.agents.is_empty() {
        section(&mut workers, "workers", &view.agents);
        workers.append(
            "\nUnresolved workers block finish(): join or cancel each one before completing.",
        );
    }
    proof {
        assert(workers@ =~= workers_text(view.agents@));
    }
    out.append(workers.as_str());
    section(&mut out, "background processes", &view.processes);
    out
}

/// Renders a checkpoint for the prose of a compaction event.
pub fn render_checkpoint(checkpoint: &ContextCheckpoint) -> (r: String)
    ensures
        r@ == checkpoint.rendered(),
{
    checkpoint.render()
}

/// One item where there is one.
pub open spec fn optional(v: Option<ItemView>) -> Seq<ItemView> {
    match v {
        Some(i) => seq![i],
        None => Seq::empty(),
    }
}

/// A string without white space at its end.
fn trim_tail(s: &str) -> (r: String)
    ensures
        r@ == trim_end(s@),
{
    let chars = to_chars(s);
    let mut j: usize = chars.len();
    proof {
        assert(s@.take(j as int) =~= s@);
    }
    while j > 0 && is_space_char(chars[j - 1])
        invariant
            chars@ == s@,
            j <= chars.len(),
            trim_end(s@) == trim_end(s@.take(j as int)),
        decreases j,
    {
        proof {
            assert(s@.take(j as int).drop_last() =~= s@.take(j - 1));
        }
        j = j - 1;
    }
    proof {
        assert(s@.subrange(0, j as int) =~= s@.take(j as int));
    }
    from_chars(&chars, 0, j)
}

impl ContextCompiler {
    /// The system framing, of the root agent or of a worker.
    pub open spec fn system_text(self, worker: Option<AgentRecord>) -> Seq<char> {
        match worker {
            None => "[system]\n"@ + self.system_prompt@,
            Some(record) => "[system]\n"@ + self.system_prompt@
                + "\n\nYou are a delegated worker with a parent. Delegation depth is one: agent_spawn, agent_join, delegate, and integrate are unavailable to you. "@
                + capability_text(record.access)
                + " Report a compact final result through finish(), not a transcript."@
                + profile_text(record.profile),
        }
    }

    /// The tool documentation of the prelude, where it has any.
    pub open spec fn prelude_view(self) -> Option<ItemView> {
        match self.prelude_tools {
            Some(tools) => if trim_end(tools@).len() == 0 {
                None
            } else {
                Some(
                    item_view(
                        ContextSource::System,
                        Priority::Hard,
                        "[workspace prelude tools]\nThese synchronous helpers are already defined for every PTC program in this workspace. Prefer them over reimplementing the same work inline.\n"@
                            + bounded(trim_end(tools@), MAX_PRELUDE_DESCRIPTION_BYTES as nat),
                    ),
                )
            },
            None => None,
        }
    }

    /// The objective of the task.
    pub open spec fn objective_view(view: TaskView, worker: Option<AgentRecord>) -> ItemView {
        item_view(
            ContextSource::Task,
            Priority::Hard,
            "["@ + (if worker is Some {
                "delegated objective"@
            } else {
                "objective"@
            }) + "]\n"@ + view.goal.objective@,
        )
    }

    /// What the parent handed to the worker, where it did.
    pub open spec fn parent_view(worker: Option<AgentRecord>) -> Option<ItemView> {
        match worker {
            Some(record) => if record.context.text@ == "null"@ {
                None
            } else {
                Some(
                    item_view(
                        ContextSource::CurrentInstruction,
                        Priority::Working,
                        "[parent-provided context]\n"@ + bounded(record.context.pretty(), 8192),
                    ),
                )
            },
            None => None,
        }
    }

    /// The latest instruction of the user, where there is one.
    pub open spec fn instruction_view(view: TaskView) -> Option<ItemView> {
        match view.latest_user_message {
            Some(message) => Some(
                item_view(
                    ContextSource::CurrentInstruction,
                    Priority::Hard,
                    "[current user instruction]\n"@ + message@,
                ),
            ),
            None => None,
        }
    }

    /// The checkpoint of the previous window, where there is one.
    pub open spec fn checkpoint_view(view: TaskView) -> Option<ItemView> {
        match view.checkpoint {
            Some(checkpoint) => Some(
                item_view(ContextSource::Compaction, Priority::Sticky, checkpoint.rendered()),
            ),
            None => None,
        }
    }

    /// Everything that may enter the context, in order.
    pub open spec fn candidates(
        self,
        view: TaskView,
        events: Seq<EventRecord>,
        worker: Option<AgentRecord>,
    ) -> Seq<ItemView> {
        let window = window_of(view, events);
        seq![item_view(ContextSource::System, Priority::Hard, self.system_text(worker))] + optional(
            self.prelude_view(),
        ) + seq![Self::objective_view(view, worker)] + optional(Self::parent_view(worker))
            + optional(Self::instruction_view(view)) + optional(Self::checkpoint_view(view))
            + seq![item_view(ContextSource::Goal, Priority::Sticky, goal_text(view))]
            + seq![item_view(ContextSource::WorkState, Priority::Sticky, work_text(view))]
            + event_views(window, marks_of(window))
    }

    /// Compiles the context for one task, of the root agent or of a worker. The
    /// record of the agent counts only where the task is not the root agent's.
    pub fn compile(&self, view: &TaskView, events: &Vec<EventRecord>, agent: Option<&AgentRecord>) -> (r:
        Result<CompiledContext, ContextError>)
        ensures
            is_selection(
                self.candidates(
                    *view,
                    events@,
                    match agent {
                        Some(record) => if view.agent.0 == 0 {
                            None
                        } else {
                            Some(*record)
                        },
                        None => None,
                    },
                ),
                self.max_tokens as nat,
                r,
            ),
    {
        if view.agent.is_root() {
            self.compile_view(view, events, None)
        } else {
            self.compile_view(view, events, agent)
        }
    }

    /// Compiles the context from what the journal says of the task.
    pub fn compile_view(
        &self,
        view: &TaskView,
        events: &Vec<EventRecord>,
        worker: Option<&AgentRecord>,
    ) -> (r: Result<CompiledContext, ContextError>)
        ensures
            is_selection(
                self.candidates(
                    *view,
                    events@,
                    match worker {
                        Some(record) => Some(*record),
                        None => None,
                    },
                ),
                self.max_tokens as nat,
                r,
            ),
    {
        let ghost record: Option<AgentRecord> = match worker {
            Some(record) => Some(*record),
            None => None,
        };
        let mut out: Vec<ContextItem> = Vec::new();
        out.push(item(ContextSource::System, Priority::Hard, self.system_item(worker)));
        proof {
            assert(item_views(out@) =~= seq![
                item_view(ContextSource::System, Priority::Hard, self.system_text(record)),
            ]);
        }
        push_optional(&mut out, self.prelude_item());
        let mut objective = text("[");
        if worker.is_some() {
            objective.append("delegated objective");
        } else {
            objective.append("objective");
        }
        objective.append("]\n");
        objective.append(view.goal.objective.as_str());
        push_item(&mut out, item(ContextSource::Task, Priority::Hard, objective));
        let parent: Option<ContextItem> = match worker {
            Some(w) => {
                if w.context.is_null() {
                    None
                } else {
                    let mut s = text("[parent-provided context]\n");
                    s.append(bounded_json(&w.context, 8192).as_str());
                    Some(item(ContextSource::CurrentInstruction, Priority::Working, s))
                }
            },
            None => None,
        };
        push_optional(&mut out, parent);
        let instruction: Option<ContextItem> = match &view.latest_user_message {
            Some(message) => {
                let mut s = text("[current user instruction]\n");
                s.append(message.as_str());
                Some(item(ContextSource::CurrentInstruction, Priority::Hard, s))
            },
            None => None,
        };
        push_optional(&mut out, instruction);
        let checkpoint: Option<ContextItem> = match &view.checkpoint {
            Some(checkpoint) => Some(
                item(ContextSource::Compaction, Priority::Sticky, checkpoint.render()),
            ),
            None => None,
        };
        push_optional(&mut out, checkpoint);
        push_item(&mut out, item(ContextSource::Goal, Priority::Sticky, render_goal_state(view)));
        push_item(
            &mut out,
            item(ContextSource::WorkState, Priority::Sticky, render_work_state(view)),
        );
        push_events(&mut out, view, events);
        self.select(out)
    }

    /// Whether a compiled context has crossed the rollover threshold.
    pub fn needs_rollover(&self, context: &CompiledContext) -> (r: bool)
        ensures
            r == (context.estimated_tokens >= self.soft_limit_tokens),
    {
        context.estimated_tokens >= self.soft_limit_tokens
    }

    fn system_item(&self, worker: Option<&AgentRecord>) -> (r: String)
        ensures
            r@ == self.system_text(
                match worker {
                    Some(record) => Some(*record),
                    None => None,
                },
            ),
    {
        let mut s = text("[system]\n");
        s.append(self.system_prompt.as_str());
        match worker {
            None => s,
            Some(record) => {
                s.append(
                    "\n\nYou are a delegated worker with a parent. Delegation depth is one: agent_spawn, agent_join, delegate, and integrate are unavailable to you. ",
                );
                match record.access {
                    AgentAccess::Read => s.append(
                        "You may read the workspace. Writes and subprocesses are disabled.",
                    ),
                    AgentAccess::IsolatedWrite => s.append(
                        "You work in a private workspace forked from the parent revision. Your changes reach the parent only if the parent integrates them.",
                    ),
                }
                s.append(" Report a compact final result through finish(), not a transcript.");
                let mut line = String::new();
                match &record.profile {
                    Some(name) => match profile(name.as_str()) {
                        Some(found) => {
                            line = text("\nProfile ");
                            line.append(found.name);
                            line.append(": ");
                            line.append(found.instruction);
                        },
                        None => {},
                    },
                    None => {},
                }
                s.append(line.as_str());
                s
            },
        }
    }

    fn prelude_item(&self) -> (r: Option<ContextItem>)
        ensures
            match r {
                Some(i) => self.prelude_view() == Some(i@),
                None => self.prelude_view() is None,
            },
    {
        match &self.prelude_tools {
            Some(documented) => {
                let tools = trim_tail(documented.as_str());
                if tools.as_str().is_empty() {
                    None
                } else {
                    let mut s = text(
                        "[workspace prelude tools]\nThese synchronous helpers are already defined for every PTC program in this workspace. Prefer them over reimplementing the same work inline.\n",
                    );
                    s.append(bounded_text(tools.as_str(), MAX_PRELUDE_DESCRIPTION_BYTES).as_str());
                    Some(item(ContextSource::System, Priority::Hard, s))
                }
            },
            None => None,
        }
    }

    /// Selects from the candidates: every hard one, then the others by
    /// priority, the latest first, as long as they fit. Fails where the hard
    /// ones alone exceed the maximum.
    pub fn select(&self, candidates: Vec<ContextItem>) -> (r: Result<CompiledContext, ContextError>)
        ensures
            is_selection(item_views(candidates@), self.max_tokens as nat, r),
    {
        let ghost all = item_views(candidates@);
        let max: usize = self.max_tokens;
        let mut required_tokens: usize = 0;
        let mut keep: Vec<bool> = Vec::new();
        let mut i: usize = 0;
        while i < candidates.len()
            invariant
                i <= candidates.len(),
                all == item_views(candidates@),
                required_tokens == required(all.take(i as int)),
                keep@ == all.map_values(|i: ItemView| i.priority is Hard).take(i as int),
            decreases candidates.len() - i,
        {
            proof {
                assert(all.take(i + 1).drop_last() =~= all.take(i as int));
                assert(all.take(i + 1).last() == candidates@[i as int]@);
            }
            match candidates[i].priority {
                Priority::Hard => {
                    required_tokens =
                    required_tokens.saturating_add(candidates[i].estimated_tokens);
                    keep.push(true);
                },
                _ => {
                    keep.push(false);
                },
            }
            proof {
                let flags = all.map_values(|i: ItemView| i.priority is Hard);
                assert(flags.take(i + 1) =~= flags.take(i as int).push(flags[i as int]));
            }
            i = i + 1;
        }
        proof {
            assert(all.take(i as int) =~= all);
            let flags = all.map_values(|i: ItemView| i.priority is Hard);
            assert(flags.take(i as int) =~= flags);
            assert(hard_only(all) =~= (Picked { used: required_tokens as nat, keep: keep@ }));
        }
        if required_tokens > max {
            return Err(ContextError::HardOverflow { required_tokens, max_tokens: max });
        }
        let mut used: usize = required_tokens;
        pick_rank(&candidates, max, &mut used, &mut keep, Priority::Sticky);
        pick_rank(&candidates, max, &mut used, &mut keep, Priority::Working);
        pick_rank(&candidates, max, &mut used, &mut keep, Priority::Ephemeral);
        let omitted: usize = count_left_out(&keep);
        let items = keep_items(candidates, &keep);
        Ok(CompiledContext { items, estimated_tokens: used, omitted_items: omitted })
    }
}

/// The place of a priority in the order.
fn rank_of(p: Priority) -> (r: u8)
    ensures
        r == p.rank(),
{
    match p {
        Priority::Ephemeral => 0,
        Priority::Working => 1,
        Priority::Sticky => 2,
        Priority::Hard => 3,
    }
}

/// Considers the candidates of one priority, the latest first.
fn pick_rank(
    candidates: &Vec<ContextItem>,
    max: usize,
    used: &mut usize,
    keep: &mut Vec<bool>,
    priority: Priority,
)
    requires
        old(keep)@.len() == candidates@.len(),
        *old(used) <= max,
    ensures
        (Picked { used: *final(used) as nat, keep: final(keep)@ }) == consider_rank(
            item_views(candidates@),
            max as nat,
            Picked { used: *old(used) as nat, keep: old(keep)@ },
            priority.rank(),
            candidates@.len() as int,
        ),
        final(keep)@.len() == candidates@.len(),
        *final(used) <= max,
{
    let ghost all = item_views(candidates@);
    let ghost goal = consider_rank(
        all,
        max as nat,
        Picked { used: *used as nat, keep: keep@ },
        priority.rank(),
        all.len() as int,
    );
    let rank: u8 = rank_of(priority);
    let mut n: usize = candidates.len();
    while n > 0
        invariant
            n <= candidates.len(),
            rank == priority.rank(),
            all == item_views(candidates@),
            keep@.len() == candidates@.len(),
            *used <= max,
            consider_rank(
                all,
                max as nat,
                Picked { used: *used as nat, keep: keep@ },
                priority.rank(),
                n as int,
            ) == goal,
        decreases n,
    {
        let i: usize = n - 1;
        proof {
            assert(all[i as int] == candidates@[i as int]@);
        }
        if rank_of(candidates[i].priority) == rank {
            let tokens: usize = candidates[i].estimated_tokens;
            if tokens <= max - *used {
                *used = *used + tokens;
                keep.set(i, true);
            }
        }
        n = i;
    }
}

/// How many flags are not set.
fn count_left_out(keep: &Vec<bool>) -> (r: usize)
    ensures
        r == left_out(keep@),
{
    let mut count: usize = 0;
    let mut i: usize = 0;
    while i < keep.len()
        invariant
            i <= keep.len(),
            count <= i,
            count == left_out(keep@.take(i as int)),
        decreases keep.len() - i,
    {
        proof {
            assert(keep@.take(i + 1).drop_last() =~= keep@.take(i as int));
        }
        if !keep[i] {
            count = count + 1;
        }
        i = i + 1;
    }
    proof {
        assert(keep@.take(i as int) =~= keep@);
    }
    count
}

/// The candidates whose flag is set, in their order.
fn keep_items(candidates: Vec<ContextItem>, keep: &Vec<bool>) -> (r: Vec<ContextItem>)
    requires
        keep@.len() == candidates@.len(),
    ensures
        item_views(r@) == kept(item_views(candidates@), keep@),
{
    let ghost source = candidates@;
    let ghost all = item_views(candidates@);
    let mut out: Vec<ContextItem> = Vec::new();
    let n: usize = keep.len();
    let mut i: usize = 0;
    proof {
        assert(item_views(out@) =~= kept(all.take(0), keep@));
    }
    for candidate in iter: candidates
        invariant
            iter.seq() == source,
            all == item_views(source),
            n == keep@.len(),
            n == source.len(),
            i == iter.index(),
            item_views(out@) == kept(all.take(i as int), keep@),
    {
        proof {
            assert(all.take(i + 1).drop_last() =~= all.take(i as int));
            assert(all.take(i + 1).last() == candidate@);
        }
        if keep[i] {
            let ghost before = out@;
            out.push(candidate);
            proof {
                assert(item_views(out@) =~= item_views(before).push(candidate@));
            }
        }
        i = i + 1;
    }
    proof {
        assert(all.take(i as int) =~= all);
    }
    out
}

fn push_item(out: &mut Vec<ContextItem>, i: ContextItem)
    ensures
        item_views(final(out)@) == item_views(old(out)@) + seq![i@],
{
    let ghost before = out@;
    out.push(i);
    proof {
        assert(item_views(out@) =~= item_views(before) + seq![i@]);
    }
}

fn push_optional(out: &mut Vec<ContextItem>, i: Option<ContextItem>)
    ensures
        item_views(final(out)@) == item_views(old(out)@) + optional(
            match i {
                Some(value) => Some(value@),
                None => None,
            },
        ),
{
    match i {
        Some(value) => push_item(out, value),
        None => {
            proof {
                assert(item_views(out@) + optional(None) =~= item_views(out@));
            }
        },
    }
}

/// Whether an event belongs to the current window of the task.
fn belongs(view: &TaskView, record: &EventRecord) -> (r: bool)
    ensures
        r == in_window(*view, *record),
{
    record.seq >= view.window_start_seq && match record.event.task_id() {
        Some(id) => id.0 == view.task_id.0,
        None => false,
    }
}

/// The marks of the current window.
pub fn window_marks(view: &TaskView, events: &Vec<EventRecord>) -> (r: WindowMarks)
    ensures
        r == marks_of(window_of(*view, events@)),
{
    let mut user: Option<u64> = None;
    let mut assistant: Option<u64> = None;
    let mut completed: Option<u64> = None;
    let mut failed: Option<u64> = None;
    let mut dialogue: Vec<u64> = Vec::new();
    let mut i: usize = 0;
    let ghost inside = |r: EventRecord| in_window(*view, r);
    let ghost talk = |r: EventRecord| is_dialogue(r);
    let ghost place = |r: EventRecord| r.seq;
    proof {
        reveal_with_fuel(Seq::filter, 1);
        assert(window_of(*view, events@.take(0)) =~= Seq::<EventRecord>::empty());
        assert(dialogue@ =~= dialogue_seqs(window_of(*view, events@.take(0))));
    }
    while i < events.len()
        invariant
            i <= events.len(),
            inside == (|r: EventRecord| in_window(*view, r)),
            talk == (|r: EventRecord| is_dialogue(r)),
            place == (|r: EventRecord| r.seq),
            user == last_seq(
                window_of(*view, events@.take(i as int)),
                |r: EventRecord| speaks_for_user(r),
            ),
            assistant == last_seq(
                window_of(*view, events@.take(i as int)),
                |r: EventRecord| is_assistant(r),
            ),
            completed == last_seq(
                window_of(*view, events@.take(i as int)),
                |r: EventRecord| is_completed(r),
            ),
            failed == last_seq(
                window_of(*view, events@.take(i as int)),
                |r: EventRecord| is_failed(r),
            ),
            dialogue@ == dialogue_seqs(window_of(*view, events@.take(i as int))),
        decreases events.len() - i,
    {
        let record = &events[i];
        let ghost done = events@.take(i as int);
        let ghost window = window_of(*view, done);
        proof {
            assert(events@.take(i + 1) =~= done.push(*record));
            done.lemma_filter_push(*record, inside);
            window.lemma_filter_push(*record, talk);
            window.filter(talk).lemma_push_map_commute(place, *record);
            assert(window.push(*record).drop_last() =~= window);
        }
        if belongs(view, record) {
            match &record.event {
                SessionEvent::UserMessage { .. } => {
                    user = Some(record.seq);
                    dialogue.push(record.seq);
                },
                SessionEvent::SteeringApplied { .. } => {
                    user = Some(record.seq);
                },
                SessionEvent::AssistantMessage { .. } => {
                    assistant = Some(record.seq);
                    dialogue.push(record.seq);
                },
                SessionEvent::PtcCompleted { .. } => {
                    completed = Some(record.seq);
                },
                SessionEvent::PtcFailed { .. } => {
                    failed = Some(record.seq);
                },
                _ => {},
            }
        }
        i = i + 1;
    }
    proof {
        assert(events@.take(i as int) =~= events@);
    }
    let dialogue_start: u64 = if dialogue.len() >= 6 {
        dialogue[dialogue.len() - 6]
    } else {
        0
    };
    WindowMarks { user, assistant, completed, failed, dialogue_start }
}

fn push_events(out: &mut Vec<ContextItem>, view: &TaskView, events: &Vec<EventRecord>)
    ensures
        item_views(final(out)@) == item_views(old(out)@) + event_views(
            window_of(*view, events@),
            marks_of(window_of(*view, events@)),
        ),
{
    let marks = window_marks(view, events);
    let ghost start = item_views(out@);
    let ghost inside = |r: EventRecord| in_window(*view, r);
    let mut i: usize = 0;
    proof {
        reveal_with_fuel(Seq::filter, 1);
        assert(window_of(*view, events@.take(0)) =~= Seq::<EventRecord>::empty());
        assert(start + event_views(window_of(*view, events@.take(0)), marks) =~= start);
    }
    while i < events.len()
        invariant
            i <= events.len(),
            inside == (|r: EventRecord| in_window(*view, r)),
            item_views(out@) == start + event_views(
                window_of(*view, events@.take(i as int)),
                marks,
            ),
        decreases events.len() - i,
    {
        let record = &events[i];
        let ghost done = events@.take(i as int);
        let ghost window = window_of(*view, done);
        proof {
            assert(events@.take(i + 1) =~= done.push(*record));
            done.lemma_filter_push(*record, inside);
            assert(window.push(*record).drop_last() =~= window);
        }
        if belongs(view, record) {
            match event_item(record, marks) {
                Some(value) => {
                    push_item(out, value);
                    proof {
                        assert(item_views(out@) =~= start + event_views(
                            window.push(*record),
                            marks,
                        ));
                    }
                },
                None => {},
            }
        }
        i = i + 1;
    }
    proof {
        assert(events@.take(i as int) =~= events@);
    }
}

/// An event outside the current window of a task leaves its context as it is:
/// what earlier windows and other tasks said is not rendered.
pub proof fn law_only_the_current_window_is_rendered(
    compiler: ContextCompiler,
    view: TaskView,
    events: Seq<EventRecord>,
    record: EventRecord,
    worker: Option<AgentRecord>,
)
    requires
        !in_window(view, record),
    ensures
        compiler.candidates(view, events.push(record), worker) == compiler.candidates(
            view,
            events,
            worker,
        ),
{
    events.lemma_filter_push(record, |r: EventRecord| in_window(view, r));
}

pub proof fn lemma_kept_holds(items: Seq<ItemView>, keep: Seq<bool>, i: int)
    requires
        0 <= i < items.len() <= keep.len(),
        keep[i],
    ensures
        kept(items, keep).contains(items[i]),
    decreases items.len(),
{
    let all = kept(items, keep);
    let init = kept(items.drop_last(), keep);
    if i == items.len() - 1 {
        assert(all.last() == items[i]);
    } else {
        lemma_kept_holds(items.drop_last(), keep, i);
        let k = choose|k: int| 0 <= k < init.len() && init[k] == items[i];
        assert(all[k] == items[i]);
    }
}

pub proof fn lemma_hard_items_stay(items: Seq<ItemView>, max: nat, i: int)
    requires
        required(items) <= max,
        0 <= i < items.len(),
        items[i].priority is Hard,
    ensures
        kept(items, picked(items, max).keep).contains(items[i]),
{
    law_selection_keeps_hard_items_within_budget(items, max);
    lemma_kept_holds(items, picked(items, max).keep, i);
}

/// Whatever has to be left out, a compiled context holds the objective of the
/// task and the current instruction of the user.
pub proof fn law_objective_and_instruction_are_always_rendered(
    compiler: ContextCompiler,
    view: TaskView,
    events: Seq<EventRecord>,
    worker: Option<AgentRecord>,
    compiled: CompiledContext,
)
    requires
        is_selection(
            compiler.candidates(view, events, worker),
            compiler.max_tokens as nat,
            Ok(compiled),
        ),
    ensures
        item_views(compiled.items@).contains(ContextCompiler::objective_view(view, worker)),
        ContextCompiler::instruction_view(view) matches Some(instruction) ==> item_views(
            compiled.items@,
        ).contains(instruction),
{
    let all = compiler.candidates(view, events, worker);
    let max = compiler.max_tokens as nat;
    let at = 1 + optional(compiler.prelude_view()).len();
    assert(all[at as int] == ContextCompiler::objective_view(view, worker));
    lemma_hard_items_stay(all, max, at as int);
    let next = at + 1 + optional(ContextCompiler::parent_view(worker)).len();
    if ContextCompiler::instruction_view(view) is Some {
        assert(all[next as int] == ContextCompiler::instruction_view(view)->0);
        lemma_hard_items_stay(all, max, next as int);
    }
}

} // verus!
