//! What the model is shown of a task.
use vstd::prelude::*;
use crate::context::{blocker_summaries, dashed_lines, event_view, event_views, evidence_line, evidence_lines, freshness, goal_text, in_window, is_assistant, is_completed, is_dialogue, is_failed, dialogue_seqs, item_view, last_seq, listing, marks_of, optional, parked_note, speaks_for_user, window_of, work_text, workers_text, ContextCompiler, ContextSource, ItemView, Priority, WindowMarks};
use crate::goal::{lemma_contains_in_sum, lemma_section_contains, lines_of, section_text, titles_of, Line};
use crate::delegation::AgentAccess;
use crate::laws::completion::lemma_sum_contains;
use crate::laws::texts::{law_a_joined_text_shows_its_parts, lemma_in_sum, lemma_shows};
use crate::session::{is_newest, newest_from, AgentRecord, EventRecord, EvidenceRecord, SessionEvent, TaskView};
use crate::text::{bounded, contains, decimal, joined, trim_end, views};

verus! {

proof fn lemma_in_goal_text(view: TaskView, pat: Seq<char>)
    requires
        contains("[goal state]\nstatus: "@, pat)
            || contains(view.goal.status.name(), pat)
            || contains("\ncontext window: "@, pat)
            || contains(decimal(view.window as nat), pat)
            || contains("\nturns in this window: "@, pat)
            || contains(decimal(view.turns_in_window as nat), pat)
            || contains(section_text("acceptance criteria"@, lines_of(view.goal.acceptance_criteria@)), pat)
            || contains(section_text("completed work"@, titles_of(view.goal.completed_work@)), pat)
            || contains(section_text("pending work"@, titles_of(view.goal.pending_work@)), pat)
            || contains(section_text("blockers"@, blocker_summaries(view.goal.blockers@)), pat)
            || contains(section_text("next actions"@, views(view.goal.next_actions@)), pat)
            || contains(parked_note(view.goal.status), pat),
    ensures
        contains(goal_text(view), pat),
{
    let p0 = "[goal state]\nstatus: "@;
    let p1 = view.goal.status.name();
    let p2 = "\ncontext window: "@;
    let p3 = decimal(view.window as nat);
    let p4 = "\nturns in this window: "@;
    let p5 = decimal(view.turns_in_window as nat);
    let p6 = section_text("acceptance criteria"@, lines_of(view.goal.acceptance_criteria@));
    let p7 = section_text("completed work"@, titles_of(view.goal.completed_work@));
    let p8 = section_text("pending work"@, titles_of(view.goal.pending_work@));
    let p9 = section_text("blockers"@, blocker_summaries(view.goal.blockers@));
    let p10 = section_text("next actions"@, views(view.goal.next_actions@));
    let p11 = parked_note(view.goal.status);
    lemma_contains_in_sum(p0, p1, pat);
    let t1 = p0 + p1;
    lemma_contains_in_sum(t1, p2, pat);
    let t2 = t1 + p2;
    lemma_contains_in_sum(t2, p3, pat);
    let t3 = t2 + p3;
    lemma_contains_in_sum(t3, p4, pat);
    let t4 = t3 + p4;
    lemma_contains_in_sum(t4, p5, pat);
    let t5 = t4 + p5;
    lemma_contains_in_sum(t5, p6, pat);
    let t6 = t5 + p6;
    lemma_contains_in_sum(t6, p7, pat);
    let t7 = t6 + p7;
    lemma_contains_in_sum(t7, p8, pat);
    let t8 = t7 + p8;
    lemma_contains_in_sum(t8, p9, pat);
    let t9 = t8 + p9;
    lemma_contains_in_sum(t9, p10, pat);
    let t10 = t9 + p10;
    lemma_contains_in_sum(t10, p11, pat);
    assert(goal_text(view) == t10 + p11);
}

proof fn lemma_in_work_text(view: TaskView, pat: Seq<char>)
    requires
        contains("[working state]\ntask: "@, pat)
            || contains(decimal(view.task_id.0 as nat), pat)
            || contains("\nbase revision: "@, pat)
            || contains((match view.base_revision {
        Some(revision) => revision.0@,
        None => "none"@,
    }), pat)
            || contains("\ncurrent revision: "@, pat)
            || contains(view.goal.current_revision.0@, pat)
            || contains("\n\nworkspace changes:\n"@, pat)
            || contains(listing(dashed_lines(views(view.changed_paths@))), pat)
            || contains("\n\nverification:\n"@, pat)
            || contains(listing(evidence_lines(view)), pat)
            || contains(workers_text(view.agents@), pat)
            || contains(section_text("background processes"@, lines_of(view.processes@)), pat),
    ensures
        contains(work_text(view), pat),
{
    let p0 = "[working state]\ntask: "@;
    let p1 = decimal(view.task_id.0 as nat);
    let p2 = "\nbase revision: "@;
    let p3 = (match view.base_revision {
        Some(revision) => revision.0@,
        None => "none"@,
    });
    let p4 = "\ncurrent revision: "@;
    let p5 = view.goal.current_revision.0@;
    let p6 = "\n\nworkspace changes:\n"@;
    let p7 = listing(dashed_lines(views(view.changed_paths@)));
    let p8 = "\n\nverification:\n"@;
    let p9 = listing(evidence_lines(view));
    let p10 = workers_text(view.agents@);
    let p11 = section_text("background processes"@, lines_of(view.processes@));
    lemma_contains_in_sum(p0, p1, pat);
    let t1 = p0 + p1;
    lemma_contains_in_sum(t1, p2, pat);
    let t2 = t1 + p2;
    lemma_contains_in_sum(t2, p3, pat);
    let t3 = t2 + p3;
    lemma_contains_in_sum(t3, p4, pat);
    let t4 = t3 + p4;
    lemma_contains_in_sum(t4, p5, pat);
    let t5 = t4 + p5;
    lemma_contains_in_sum(t5, p6, pat);
    let t6 = t5 + p6;
    lemma_contains_in_sum(t6, p7, pat);
    let t7 = t6 + p7;
    lemma_contains_in_sum(t7, p8, pat);
    let t8 = t7 + p8;
    lemma_contains_in_sum(t8, p9, pat);
    let t9 = t8 + p9;
    lemma_contains_in_sum(t9, p10, pat);
    let t10 = t9 + p10;
    lemma_contains_in_sum(t10, p11, pat);
    assert(work_text(view) == t10 + p11);
}

/// The model is shown what its goal lists: every criterion, what is done, what is
/// left, what is in the way and what comes next.
pub proof fn law_the_goal_is_shown(view: TaskView, i: int)
    ensures
        0 <= i < view.goal.acceptance_criteria@.len() ==> contains(
            goal_text(view),
            view.goal.acceptance_criteria@[i].description@,
        ),
        0 <= i < view.goal.completed_work@.len() ==> contains(
            goal_text(view),
            view.goal.completed_work@[i].title@,
        ),
        0 <= i < view.goal.pending_work@.len() ==> contains(
            goal_text(view),
            view.goal.pending_work@[i].title@,
        ),
        0 <= i < view.goal.blockers@.len() ==> contains(
            goal_text(view),
            view.goal.blockers@[i].summary@,
        ),
        0 <= i < view.goal.next_actions@.len() ==> contains(
            goal_text(view),
            view.goal.next_actions@[i]@,
        ),
        contains(goal_text(view), view.goal.status.name()),
{
    lemma_in_sum(view.goal.status.name(), view.goal.status.name());
    lemma_in_goal_text(view, view.goal.status.name());
    if 0 <= i < view.goal.acceptance_criteria@.len() {
        let c = view.goal.acceptance_criteria@[i];
        let all = lines_of(view.goal.acceptance_criteria@);
        assert(all[i] == c.line());
        lemma_section_contains("acceptance criteria"@, all, c.line());
        let lead = "["@ + (if c.met {
            "met"@
        } else {
            "unmet"@
        }) + "] "@;
        lemma_in_sum(lead, c.description@);
        lemma_shows(section_text("acceptance criteria"@, all), c.line(), c.description@);
        lemma_in_goal_text(view, c.description@);
    }
    if 0 <= i < view.goal.completed_work@.len() {
        let all = titles_of(view.goal.completed_work@);
        assert(all[i] == view.goal.completed_work@[i].title@);
        lemma_section_contains("completed work"@, all, all[i]);
        lemma_in_goal_text(view, all[i]);
    }
    if 0 <= i < view.goal.pending_work@.len() {
        let all = titles_of(view.goal.pending_work@);
        assert(all[i] == view.goal.pending_work@[i].title@);
        lemma_section_contains("pending work"@, all, all[i]);
        lemma_in_goal_text(view, all[i]);
    }
    if 0 <= i < view.goal.blockers@.len() {
        let all = blocker_summaries(view.goal.blockers@);
        assert(all[i] == view.goal.blockers@[i].summary@);
        lemma_section_contains("blockers"@, all, all[i]);
        lemma_in_goal_text(view, all[i]);
    }
    if 0 <= i < view.goal.next_actions@.len() {
        let all = views(view.goal.next_actions@);
        assert(all[i] == view.goal.next_actions@[i]@);
        lemma_section_contains("next actions"@, all, all[i]);
        lemma_in_goal_text(view, all[i]);
    }
}

/// The model is shown the state of the work: the revision, every changed path,
/// every worker with its state, and every process with its state and its command.
pub proof fn law_the_work_is_shown(view: TaskView, i: int)
    ensures
        contains(work_text(view), view.goal.current_revision.0@),
        0 <= i < view.changed_paths@.len() ==> contains(
            work_text(view),
            view.changed_paths@[i]@,
        ),
        0 <= i < view.agents@.len() ==> contains(
            work_text(view),
            "agent "@ + decimal(view.agents@[i].agent.0 as nat) + " ["@
                + view.agents@[i].state.name() + "] "@ + view.agents@[i].objective@,
        ) && (view.agents@[i].result matches Some(result) ==> contains(
            work_text(view),
            bounded(result.summary@, 300),
        )),
        0 <= i < view.processes@.len() ==> contains(
            work_text(view),
            "process "@ + decimal(view.processes@[i].process.0 as nat) + " ["@
                + view.processes@[i].state@ + "] "@ + joined(
                views(view.processes@[i].argv@),
                " "@,
            ),
        ),
{
    lemma_in_sum(view.goal.current_revision.0@, view.goal.current_revision.0@);
    lemma_in_work_text(view, view.goal.current_revision.0@);
    if 0 <= i < view.changed_paths@.len() {
        let p = view.changed_paths@[i]@;
        let all = dashed_lines(views(view.changed_paths@));
        assert(all[i] == "- "@ + p);
        lemma_in_sum("- "@, p);
        law_a_joined_text_shows_its_parts(all, "\n"@, i);
        lemma_shows(joined(all, "\n"@), all[i], p);
        lemma_in_work_text(view, p);
    }
    if 0 <= i < view.agents@.len() {
        let a = view.agents@[i];
        let all = lines_of(view.agents@);
        let main = "agent "@ + decimal(a.agent.0 as nat) + " ["@ + a.state.name() + "] "@
            + a.objective@;
        let more = main + " ("@;
        let whole = more + a.access.name();
        let whole2 = whole + ")"@;
        assert(all[i] == a.line());
        lemma_in_sum(main, " ("@);
        lemma_in_sum(more, a.access.name());
        lemma_in_sum(whole, ")"@);
        lemma_shows(whole, more, main);
        lemma_shows(whole2, whole, main);
        lemma_in_sum(whole2, whole2);
        match a.result {
            Some(result) => {
                let cut = bounded(result.summary@, 300);
                lemma_in_sum(whole2, " — "@);
                lemma_in_sum(whole2 + " — "@, cut);
                lemma_shows(whole2 + " — "@ + cut, whole2 + " — "@, whole2);
                lemma_shows(a.line(), whole2, main);
            },
            None => {},
        }
        let section = section_text("workers"@, all);
        let note =
            "\nUnresolved workers block finish(): join or cancel each one before completing."@;
        lemma_section_contains("workers"@, all, a.line());
        lemma_in_sum(section, note);
        lemma_shows(section + note, section, a.line());
        lemma_shows(workers_text(view.agents@), a.line(), main);
        lemma_in_work_text(view, main);
        match a.result {
            Some(result) => {
                let cut = bounded(result.summary@, 300);
                lemma_shows(workers_text(view.agents@), a.line(), cut);
                lemma_in_work_text(view, cut);
            },
            None => {},
        }
    }
    if 0 <= i < view.processes@.len() {
        let p = view.processes@[i];
        let all = lines_of(view.processes@);
        let main = "process "@ + decimal(p.process.0 as nat) + " ["@ + p.state@ + "] "@ + joined(
            views(p.argv@),
            " "@,
        );
        assert(all[i] == p.line());
        lemma_in_sum(main, main);
        match p.exit_code {
            Some(code) => {
                let shown = crate::text::signed_decimal(code as int);
                lemma_in_sum(main, " exit "@);
                lemma_in_sum(main + " exit "@, shown);
                lemma_shows(main + " exit "@ + shown, main + " exit "@, main);
            },
            None => {},
        }
        lemma_section_contains("background processes"@, all, p.line());
        lemma_shows(section_text("background processes"@, all), p.line(), main);
        lemma_in_work_text(view, main);
    }
}

/// The model is shown the last verification of every kind, whether it passed, and
/// whether it still holds: only one of the current revision, under the tools of
/// today, is called fresh.
pub proof fn law_the_last_verifications_are_shown(view: TaskView, i: int)
    requires
        0 <= i < view.evidence@.len(),
        forall|j: int|
            i < j < view.evidence@.len() ==> (#[trigger] view.evidence@[j]).kind@
                != view.evidence@[i].kind@,
    ensures
        contains(
            work_text(view),
            view.evidence@[i].kind@ + ": "@ + (if view.evidence@[i].ok {
                "PASS"@
            } else {
                "FAIL"@
            }) + " @ "@ + view.evidence@[i].revision.0@ + " — "@ + freshness(
                view,
                view.evidence@[i],
            ),
        ),
        freshness(view, view.evidence@[i]) == "fresh"@ <==> view.fresh(view.evidence@[i]),
{
    reveal_strlit("fresh");
    reveal_strlit("stale");
    reveal_strlit("stale — recorded under a different prelude");
    assert("fresh"@[0] == 'f');
    assert("stale"@[0] == 's');
    assert("stale — recorded under a different prelude"@[0] == 's');
    let record = view.evidence@[i];
    let newest = newest_from(view.evidence@, 0);
    assert(is_newest(view.evidence@, i));
    crate::laws::completion::lemma_newest(view.evidence@, 0);
    let k = choose|k: int| 0 <= k < newest.len() && newest[k] == i;
    let all = evidence_lines(view);
    assert(all[k] == evidence_line(view, record));
    let word = if record.ok {
        "PASS"@
    } else {
        "FAIL"@
    };
    let main = record.kind@ + ": "@ + word + " @ "@ + record.revision.0@ + " — "@ + freshness(
        view,
        record,
    );
    let dashed = "- "@ + record.kind@ + ": "@ + word + " @ "@ + record.revision.0@ + " — "@
        + freshness(view, record);
    assert(dashed =~= "- "@ + main);
    lemma_in_sum("- "@, main);
    lemma_in_sum(dashed, dashed);
    match record.note {
        Some(note) => {
            lemma_in_sum(dashed, " — "@);
            lemma_in_sum(dashed + " — "@, note@);
            lemma_shows(dashed + " — "@ + note@, dashed + " — "@, dashed);
        },
        None => {},
    }
    lemma_shows(all[k], dashed, main);
    law_a_joined_text_shows_its_parts(all, "\n"@, k);
    lemma_shows(joined(all, "\n"@), all[k], main);
    lemma_in_work_text(view, main);
}

/// Whether an event is of the current window of a task.
pub open spec fn is_current(view: TaskView, record: EventRecord) -> bool {
    record.seq >= view.window_start_seq && record.event.owner() == Some(view.task_id)
}

proof fn lemma_last_seq(
    a: Seq<EventRecord>,
    b: Seq<EventRecord>,
    pred: spec_fn(EventRecord) -> bool,
)
    requires
        forall|i: int| 0 <= i < b.len() ==> !pred(#[trigger] b[i]),
    ensures
        last_seq(a + b, pred) == last_seq(a, pred),
    decreases b.len(),
{
    if b.len() == 0 {
        assert(a + b =~= a);
    } else {
        assert((a + b).drop_last() =~= a + b.drop_last());
        assert((a + b).last() == b[b.len() - 1]);
        assert forall|i: int| 0 <= i < b.drop_last().len() implies !pred(
            #[trigger] b.drop_last()[i],
        ) by {
            assert(b.drop_last()[i] == b[i]);
        }
        lemma_last_seq(a, b.drop_last(), pred);
    }
}

/// The window is what is current before an event, the event itself, and what is
/// current after it.
proof fn lemma_window_at(view: TaskView, events: Seq<EventRecord>, k: int)
    requires
        0 <= k < events.len(),
        is_current(view, events[k]),
    ensures
        window_of(view, events) == window_of(view, events.take(k)).push(events[k]) + window_of(
            view,
            events.skip(k + 1),
        ),
{
    let pred = |r: EventRecord| in_window(view, r);
    let head = events.take(k + 1);
    let tail = events.skip(k + 1);
    assert(events =~= head + tail);
    Seq::filter_distributes_over_add(head, tail, pred);
    assert(head =~= events.take(k).push(events[k]));
    events.take(k).lemma_filter_push(events[k], pred);
}

proof fn lemma_window_holds(view: TaskView, events: Seq<EventRecord>)
    ensures
        forall|m: int|
            0 <= m < window_of(view, events).len() ==> is_current(
                view,
                #[trigger] window_of(view, events)[m],
            ) && events.contains(window_of(view, events)[m]),
{
    let pred = |r: EventRecord| in_window(view, r);
    let window = window_of(view, events);
    assert forall|m: int| 0 <= m < window.len() implies is_current(view, #[trigger] window[m])
        && events.contains(window[m]) by {
        events.lemma_filter_pred(pred, m);
        events.lemma_filter_contains_rev(pred, window[m]);
    }
}

/// The mark of the last event of a kind is the last one of the window.
proof fn lemma_mark(
    view: TaskView,
    events: Seq<EventRecord>,
    k: int,
    pred: spec_fn(EventRecord) -> bool,
)
    requires
        0 <= k < events.len(),
        is_current(view, events[k]),
        pred(events[k]),
        forall|j: int|
            k < j < events.len() ==> !(is_current(view, #[trigger] events[j]) && pred(events[j])),
    ensures
        last_seq(window_of(view, events), pred) == Some(events[k].seq),
{
    lemma_window_at(view, events, k);
    let first = window_of(view, events.take(k)).push(events[k]);
    let rest = window_of(view, events.skip(k + 1));
    lemma_window_holds(view, events.skip(k + 1));
    assert forall|i: int| 0 <= i < rest.len() implies !pred(#[trigger] rest[i]) by {
        let tail = events.skip(k + 1);
        let j = choose|j: int| 0 <= j < tail.len() && tail[j] == rest[i];
        assert(events[k + 1 + j] == rest[i]);
    }
    lemma_last_seq(first, rest, pred);
    assert(first.last() == events[k]);
}

proof fn lemma_shown(records: Seq<EventRecord>, marks: WindowMarks, m: int, v: ItemView)
    requires
        0 <= m < records.len(),
        event_view(records[m], marks) == Some(v),
    ensures
        event_views(records, marks).contains(v),
    decreases records.len(),
{
    let all = event_views(records, marks);
    let init = event_views(records.drop_last(), marks);
    if m == records.len() - 1 {
        assert(all.last() == v);
    } else {
        lemma_shown(records.drop_last(), marks, m, v);
        let i = choose|i: int| 0 <= i < init.len() && init[i] == v;
        assert(all[i] == v);
    }
}

proof fn lemma_shown_of(records: Seq<EventRecord>, marks: WindowMarks, i: int)
    requires
        0 <= i < event_views(records, marks).len(),
    ensures
        exists|m: int|
            0 <= m < records.len() && event_view(#[trigger] records[m], marks) == Some(
                event_views(records, marks)[i],
            ),
    decreases records.len(),
{
    if records.len() > 0 {
        let all = event_views(records, marks);
        let init = event_views(records.drop_last(), marks);
        if i < init.len() {
            lemma_shown_of(records.drop_last(), marks, i);
            let m = choose|m: int|
                0 <= m < records.drop_last().len() && event_view(
                    #[trigger] records.drop_last()[m],
                    marks,
                ) == Some(init[i]);
            assert(records[m] == records.drop_last()[m]);
            assert(all[i] == init[i]);
        } else {
            assert(records[records.len() - 1] == records.last());
        }
    }
}

proof fn lemma_optional(v: Option<ItemView>)
    ensures
        forall|x: ItemView| #[trigger] optional(v).contains(x) <==> v == Some(x),
{
    match v {
        Some(i) => {
            assert(optional(v)[0] == i);
        },
        None => {},
    }
}

proof fn lemma_single(v: ItemView)
    ensures
        forall|x: ItemView| #[trigger] seq![v].contains(x) <==> v == x,
{
    assert(seq![v][0] == v);
}

/// What the candidates are.
proof fn lemma_candidates_hold(
    compiler: ContextCompiler,
    view: TaskView,
    events: Seq<EventRecord>,
    worker: Option<AgentRecord>,
)
    ensures
        forall|x: ItemView| #[trigger]
            compiler.candidates(view, events, worker).contains(x) <==> {
                ||| x == item_view(
                    ContextSource::System,
                    Priority::Hard,
                    compiler.system_text(worker),
                )
                ||| compiler.prelude_view() == Some(x)
                ||| x == ContextCompiler::objective_view(view, worker)
                ||| ContextCompiler::parent_view(worker) == Some(x)
                ||| ContextCompiler::instruction_view(view) == Some(x)
                ||| ContextCompiler::checkpoint_view(view) == Some(x)
                ||| x == item_view(ContextSource::Goal, Priority::Sticky, goal_text(view))
                ||| x == item_view(ContextSource::WorkState, Priority::Sticky, work_text(view))
                ||| event_views(
                    window_of(view, events),
                    marks_of(window_of(view, events)),
                ).contains(x)
            },
{
    let i0 = item_view(ContextSource::System, Priority::Hard, compiler.system_text(worker));
    let i2 = ContextCompiler::objective_view(view, worker);
    let i6 = item_view(ContextSource::Goal, Priority::Sticky, goal_text(view));
    let i7 = item_view(ContextSource::WorkState, Priority::Sticky, work_text(view));
    lemma_single(i0);
    lemma_single(i2);
    lemma_single(i6);
    lemma_single(i7);
    lemma_optional(compiler.prelude_view());
    lemma_optional(ContextCompiler::parent_view(worker));
    lemma_optional(ContextCompiler::instruction_view(view));
    lemma_optional(ContextCompiler::checkpoint_view(view));
    let s0 = seq![i0];
    let s1 = s0 + optional(compiler.prelude_view());
    let s2 = s1 + seq![i2];
    let s3 = s2 + optional(ContextCompiler::parent_view(worker));
    let s4 = s3 + optional(ContextCompiler::instruction_view(view));
    let s5 = s4 + optional(ContextCompiler::checkpoint_view(view));
    let s6 = s5 + seq![i6];
    let s7 = s6 + seq![i7];
    let shown = event_views(window_of(view, events), marks_of(window_of(view, events)));
    lemma_sum_contains(s0, optional(compiler.prelude_view()));
    lemma_sum_contains(s1, seq![i2]);
    lemma_sum_contains(s2, optional(ContextCompiler::parent_view(worker)));
    lemma_sum_contains(s3, optional(ContextCompiler::instruction_view(view)));
    lemma_sum_contains(s4, optional(ContextCompiler::checkpoint_view(view)));
    lemma_sum_contains(s5, seq![i6]);
    lemma_sum_contains(s6, seq![i7]);
    lemma_sum_contains(s7, shown);
    assert(compiler.candidates(view, events, worker) == s7 + shown);
}

/// What is shown of an event stands among the candidates.
proof fn lemma_candidate(
    compiler: ContextCompiler,
    view: TaskView,
    events: Seq<EventRecord>,
    worker: Option<AgentRecord>,
    k: int,
    v: ItemView,
)
    requires
        0 <= k < events.len(),
        is_current(view, events[k]),
        event_view(events[k], marks_of(window_of(view, events))) == Some(v),
    ensures
        compiler.candidates(view, events, worker).contains(v),
{
    let window = window_of(view, events);
    let marks = marks_of(window);
    lemma_window_at(view, events, k);
    let m = window_of(view, events.take(k)).len() as int;
    assert(window[m] == events[k]);
    lemma_shown(window, marks, m, v);
    lemma_candidates_hold(compiler, view, events, worker);
}

/// Every candidate that comes of an event is what is shown of an event of the
/// window with that number.
proof fn lemma_candidate_of(
    compiler: ContextCompiler,
    view: TaskView,
    events: Seq<EventRecord>,
    worker: Option<AgentRecord>,
    c: ItemView,
    s: u64,
)
    requires
        compiler.candidates(view, events, worker).contains(c),
        c.source == ContextSource::SessionEvent(s),
    ensures
        exists|k: int|
            0 <= k < events.len() && is_current(view, #[trigger] events[k]) && event_view(
                events[k],
                marks_of(window_of(view, events)),
            ) == Some(c) && events[k].seq == s,
{
    let window = window_of(view, events);
    let marks = marks_of(window);
    let shown = event_views(window, marks);
    lemma_candidates_hold(compiler, view, events, worker);
    assert(shown.contains(c));
    let i = choose|i: int| 0 <= i < shown.len() && shown[i] == c;
    lemma_shown_of(window, marks, i);
    let m = choose|m: int|
        0 <= m < window.len() && event_view(#[trigger] window[m], marks) == Some(shown[i]);
    lemma_window_holds(view, events);
    assert(is_current(view, window[m]));
    let k = choose|k: int| 0 <= k < events.len() && events[k] == window[m];
    assert(events[k].seq == s);
}

/// The model is shown the result of the program it ran last, in full up to the
/// bound.
pub proof fn law_the_latest_result_is_shown(
    compiler: ContextCompiler,
    view: TaskView,
    events: Seq<EventRecord>,
    worker: Option<AgentRecord>,
    k: int,
)
    requires
        0 <= k < events.len(),
        events[k].event is PtcCompleted,
        is_current(view, events[k]),
        forall|j: int|
            k < j < events.len() ==> !(is_current(view, #[trigger] events[j])
                && events[j].event is PtcCompleted),
    ensures
        events[k].event matches SessionEvent::PtcCompleted { value, .. } && exists|c: ItemView|
            #[trigger] compiler.candidates(view, events, worker).contains(c) && c.source
                == ContextSource::SessionEvent(events[k].seq) && c.priority == Priority::Working
                && c.content == "[latest relevant PTC result]\n"@ + bounded(
                value.pretty(),
                16384,
            ),
{
    match events[k].event {
        SessionEvent::PtcCompleted { value, .. } => {
            lemma_mark(view, events, k, |r: EventRecord| is_completed(r));
            let v = item_view(
                ContextSource::SessionEvent(events[k].seq),
                Priority::Working,
                "[latest relevant PTC result]\n"@ + bounded(value.pretty(), 16384),
            );
            lemma_candidate(compiler, view, events, worker, k, v);
        },
        _ => {},
    }
}

/// Of the results of programs only the last of the window is shown: an item that
/// shows a result is of the last one.
pub proof fn law_only_the_latest_result_is_shown(
    compiler: ContextCompiler,
    view: TaskView,
    events: Seq<EventRecord>,
    worker: Option<AgentRecord>,
    k: int,
    c: ItemView,
)
    requires
        forall|i: int, j: int|
            0 <= i < j < events.len() ==> (#[trigger] events[i]).seq < (#[trigger] events[j]).seq,
        0 <= k < events.len(),
        events[k].event is PtcCompleted,
        is_current(view, events[k]),
        compiler.candidates(view, events, worker).contains(c),
        c.source == ContextSource::SessionEvent(events[k].seq),
    ensures
        forall|j: int|
            k < j < events.len() ==> !(is_current(view, #[trigger] events[j])
                && events[j].event is PtcCompleted),
{
    lemma_candidate_of(compiler, view, events, worker, c, events[k].seq);
    let m = choose|m: int|
        0 <= m < events.len() && is_current(view, #[trigger] events[m]) && event_view(
            events[m],
            marks_of(window_of(view, events)),
        ) == Some(c) && events[m].seq == events[k].seq;
    assert(m == k) by {
        if m < k {
            assert(events[m].seq < events[k].seq);
        } else if k < m {
            assert(events[k].seq < events[m].seq);
        }
    }
    lemma_mark_is_last(view, events, k, |r: EventRecord| is_completed(r));
}

proof fn lemma_mark_is_last(
    view: TaskView,
    events: Seq<EventRecord>,
    k: int,
    pred: spec_fn(EventRecord) -> bool,
)
    requires
        forall|i: int, j: int|
            0 <= i < j < events.len() ==> (#[trigger] events[i]).seq < (#[trigger] events[j]).seq,
        0 <= k < events.len(),
        last_seq(window_of(view, events), pred) == Some(events[k].seq),
    ensures
        forall|j: int|
            k < j < events.len() ==> !(is_current(view, #[trigger] events[j]) && pred(events[j])),
{
    assert forall|j: int| k < j < events.len() implies !(is_current(view, #[trigger] events[j])
        && pred(events[j])) by {
        if is_current(view, events[j]) && pred(events[j]) {
            lemma_last_of(view, events, pred, j);
            let last = choose|last: int|
                j <= last < events.len() && #[trigger] is_current(view, events[last]) && pred(
                    events[last],
                ) && last_seq(window_of(view, events), pred) == Some(events[last].seq);
            assert(events[k].seq < events[last].seq);
        }
    }
}

proof fn lemma_last_of(
    view: TaskView,
    events: Seq<EventRecord>,
    pred: spec_fn(EventRecord) -> bool,
    j: int,
)
    requires
        0 <= j < events.len(),
        is_current(view, events[j]),
        pred(events[j]),
    ensures
        exists|last: int|
            j <= last < events.len() && #[trigger] is_current(view, events[last]) && pred(
                events[last],
            ) && last_seq(window_of(view, events), pred) == Some(events[last].seq),
    decreases events.len() - j,
{
    if exists|n: int|
        j < n < events.len() && is_current(view, #[trigger] events[n]) && pred(events[n]) {
        let n = choose|n: int|
            j < n < events.len() && is_current(view, #[trigger] events[n]) && pred(events[n]);
        lemma_last_of(view, events, pred, n);
    } else {
        lemma_mark(view, events, j, pred);
    }
}

/// The model is shown the last failure of a program: the error, and what it left.
pub proof fn law_the_latest_failure_is_shown(
    compiler: ContextCompiler,
    view: TaskView,
    events: Seq<EventRecord>,
    worker: Option<AgentRecord>,
    k: int,
)
    requires
        0 <= k < events.len(),
        events[k].event is PtcFailed,
        is_current(view, events[k]),
        forall|j: int|
            k < j < events.len() ==> !(is_current(view, #[trigger] events[j])
                && events[j].event is PtcFailed),
    ensures
        events[k].event matches SessionEvent::PtcFailed { error, value, .. } && exists|c: ItemView|
            #[trigger] compiler.candidates(view, events, worker).contains(c) && c.source
                == ContextSource::SessionEvent(events[k].seq) && c.priority == Priority::Working
                && c.content == "[latest PTC failure]\n"@ + error@ + "\n"@ + bounded(
                value.pretty(),
                8192,
            ),
{
    match events[k].event {
        SessionEvent::PtcFailed { error, value, .. } => {
            lemma_mark(view, events, k, |r: EventRecord| is_failed(r));
            let v = item_view(
                ContextSource::SessionEvent(events[k].seq),
                Priority::Working,
                "[latest PTC failure]\n"@ + error@ + "\n"@ + bounded(value.pretty(), 8192),
            );
            lemma_candidate(compiler, view, events, worker, k, v);
        },
        _ => {},
    }
}

/// Of the failures of programs only the last of the window is shown.
pub proof fn law_only_the_latest_failure_is_shown(
    compiler: ContextCompiler,
    view: TaskView,
    events: Seq<EventRecord>,
    worker: Option<AgentRecord>,
    k: int,
    c: ItemView,
)
    requires
        forall|i: int, j: int|
            0 <= i < j < events.len() ==> (#[trigger] events[i]).seq < (#[trigger] events[j]).seq,
        0 <= k < events.len(),
        events[k].event is PtcFailed,
        is_current(view, events[k]),
        compiler.candidates(view, events, worker).contains(c),
        c.source == ContextSource::SessionEvent(events[k].seq),
    ensures
        forall|j: int|
            k < j < events.len() ==> !(is_current(view, #[trigger] events[j])
                && events[j].event is PtcFailed),
{
    lemma_candidate_of(compiler, view, events, worker, c, events[k].seq);
    let m = choose|m: int|
        0 <= m < events.len() && is_current(view, #[trigger] events[m]) && event_view(
            events[m],
            marks_of(window_of(view, events)),
        ) == Some(c) && events[m].seq == events[k].seq;
    assert(m == k) by {
        if m < k {
            assert(events[m].seq < events[k].seq);
        } else if k < m {
            assert(events[k].seq < events[m].seq);
        }
    }
    lemma_mark_is_last(view, events, k, |r: EventRecord| is_failed(r));
}

/// The last thing that the model said is shown to it again, and is not among the
/// first to go.
pub proof fn law_the_latest_reply_is_shown(
    compiler: ContextCompiler,
    view: TaskView,
    events: Seq<EventRecord>,
    worker: Option<AgentRecord>,
    k: int,
)
    requires
        0 <= k < events.len(),
        events[k].event is AssistantMessage,
        is_current(view, events[k]),
        forall|j: int|
            k < j < events.len() ==> !(is_current(view, #[trigger] events[j])
                && events[j].event is AssistantMessage),
    ensures
        events[k].event matches SessionEvent::AssistantMessage { content, .. } && exists|
            c: ItemView,
        |
            #[trigger] compiler.candidates(view, events, worker).contains(c) && c.source
                == ContextSource::SessionEvent(events[k].seq) && c.priority == Priority::Sticky
                && c.content == "[recent conversation]\nAssistant: "@ + content@,
{
    match events[k].event {
        SessionEvent::AssistantMessage { content, .. } => {
            lemma_mark(view, events, k, |r: EventRecord| is_assistant(r));
            let v = item_view(
                ContextSource::SessionEvent(events[k].seq),
                Priority::Sticky,
                "[recent conversation]\nAssistant: "@ + content@,
            );
            lemma_candidate(compiler, view, events, worker, k, v);
        },
        _ => {},
    }
}

/// A refused finish of the window is shown with its explanation, and an accepted
/// one is not.
pub proof fn law_refusals_are_shown(
    compiler: ContextCompiler,
    view: TaskView,
    events: Seq<EventRecord>,
    worker: Option<AgentRecord>,
    k: int,
)
    requires
        0 <= k < events.len(),
        is_current(view, events[k]),
        events[k].event is FinishProposed,
    ensures
        events[k].event->verdict.accepted ==> event_view(
            events[k],
            marks_of(window_of(view, events)),
        ) is None,
        !events[k].event->verdict.accepted ==> exists|c: ItemView|
            #[trigger] compiler.candidates(view, events, worker).contains(c) && c.source
                == ContextSource::SessionEvent(events[k].seq) && c.content
                == events[k].event->verdict.explanation(),
{
    match events[k].event {
        SessionEvent::FinishProposed { verdict, .. } => {
            if !verdict.accepted {
                let v = item_view(
                    ContextSource::SessionEvent(events[k].seq),
                    Priority::Working,
                    verdict.explanation(),
                );
                lemma_candidate(compiler, view, events, worker, k, v);
            }
        },
        _ => {},
    }
}

/// Every repeated action is shown with its fingerprint.
pub proof fn law_repeats_are_shown(
    compiler: ContextCompiler,
    view: TaskView,
    events: Seq<EventRecord>,
    worker: Option<AgentRecord>,
    k: int,
)
    requires
        0 <= k < events.len(),
        is_current(view, events[k]),
        events[k].event is RepeatedActionDetected,
    ensures
        exists|c: ItemView|
            #[trigger] compiler.candidates(view, events, worker).contains(c) && c.source
                == ContextSource::SessionEvent(events[k].seq) && c.content
                == "The previous action was repeated without changing the result. Choose a different approach instead of retrying the same PTC program. Fingerprint: "@
                + events[k].event->fingerprint@,
{
    match events[k].event {
        SessionEvent::RepeatedActionDetected { fingerprint, .. } => {
            let lead =
                "The previous action was repeated without changing the result. Choose a different approach instead of retrying the same PTC program. Fingerprint: "@;
            let v = item_view(
                ContextSource::SessionEvent(events[k].seq),
                Priority::Working,
                lead + fingerprint@,
            );
            lemma_candidate(compiler, view, events, worker, k, v);
        },
        _ => {},
    }
}

/// How many messages of the dialogue are current from a place on.
pub open spec fn messages_from(view: TaskView, events: Seq<EventRecord>, k: int) -> nat
    decreases events.len() - k,
{
    if k < 0 || k >= events.len() {
        0
    } else {
        messages_from(view, events, k + 1) + if is_current(view, events[k]) && (
        events[k].event is UserMessage || events[k].event is AssistantMessage) {
            1nat
        } else {
            0
        }
    }
}

proof fn lemma_messages(view: TaskView, events: Seq<EventRecord>, k: int)
    requires
        0 <= k <= events.len(),
    ensures
        dialogue_seqs(window_of(view, events.skip(k))).len() == messages_from(view, events, k),
    decreases events.len() - k,
{
    let current = |r: EventRecord| in_window(view, r);
    let talk = |r: EventRecord| is_dialogue(r);
    let pick = |r: EventRecord| r.seq;
    reveal_with_fuel(Seq::filter, 1);
    if k == events.len() {
        assert(events.skip(k) =~= Seq::<EventRecord>::empty());
        assert(window_of(view, events.skip(k)) =~= Seq::<EventRecord>::empty());
        assert(dialogue_seqs(window_of(view, events.skip(k))) =~= Seq::<u64>::empty());
    } else {
        lemma_messages(view, events, k + 1);
        let one = seq![events[k]];
        let rest = events.skip(k + 1);
        assert(events.skip(k) =~= one + rest);
        Seq::filter_distributes_over_add(one, rest, current);
        let w1 = one.filter(current);
        let w2 = rest.filter(current);
        Seq::filter_distributes_over_add(w1, w2, talk);
        let none = Seq::<EventRecord>::empty();
        assert(one =~= none.push(events[k]));
        none.lemma_filter_push(events[k], current);
        assert(none.filter(current) =~= none);
        assert(none.filter(talk) =~= none);
        if current(events[k]) {
            assert(w1 =~= one);
            none.lemma_filter_push(events[k], talk);
        } else {
            assert(w1 =~= none);
        }
    }
}

proof fn lemma_ascending_dialogue(view: TaskView, events: Seq<EventRecord>)
    requires
        forall|i: int, j: int|
            0 <= i < j < events.len() ==> (#[trigger] events[i]).seq < (#[trigger] events[j]).seq,
    ensures
        forall|i: int, j: int|
            0 <= i < j < dialogue_seqs(window_of(view, events)).len() ==> (
            #[trigger] dialogue_seqs(window_of(view, events))[i]) < (#[trigger] dialogue_seqs(
                window_of(view, events),
            )[j]),
        forall|i: int|
            0 <= i < dialogue_seqs(window_of(view, events)).len() ==> events.len() > 0 && (
            #[trigger] dialogue_seqs(window_of(view, events))[i]) <= events.last().seq,
    decreases events.len(),
{
    let current = |r: EventRecord| in_window(view, r);
    let talk = |r: EventRecord| is_dialogue(r);
    let pick = |r: EventRecord| r.seq;
    reveal_with_fuel(Seq::filter, 1);
    if events.len() == 0 {
        assert(window_of(view, events) =~= Seq::<EventRecord>::empty());
        assert(dialogue_seqs(window_of(view, events)) =~= Seq::<u64>::empty());
    } else {
        let init = events.drop_last();
        let last = events.last();
        assert forall|i: int, j: int| 0 <= i < j < init.len() implies (#[trigger] init[i]).seq < (
        #[trigger] init[j]).seq by {
            assert(events[i].seq < events[j].seq);
        }
        lemma_ascending_dialogue(view, init);
        assert(events =~= init.push(last));
        init.lemma_filter_push(last, current);
        let w = init.filter(current);
        w.lemma_filter_push(last, talk);
        w.filter(talk).lemma_push_map_commute(pick, last);
        if init.len() > 0 {
            assert(init.last() == events[events.len() - 2]);
            assert(events[events.len() - 2].seq < events[events.len() - 1].seq);
        }
        let was = dialogue_seqs(window_of(view, init));
        let now = dialogue_seqs(window_of(view, events));
        assert(now == was || now == was.push(last.seq));
        assert forall|i: int, j: int| 0 <= i < j < now.len() implies (#[trigger] now[i]) < (
        #[trigger] now[j]) by {
            assert(now[i] == was[i]);
            if j < was.len() {
                assert(now[j] == was[j]);
            } else {
                assert(was[i] <= init.last().seq);
            }
        }
        assert forall|i: int| 0 <= i < now.len() implies (#[trigger] now[i]) <= last.seq by {
            if i < was.len() {
                assert(now[i] == was[i]);
                assert(was[i] <= init.last().seq);
            }
        }
    }
}

/// The last six messages of the dialogue are shown and no older ones, with two
/// exceptions: the last reply is always shown, and what the user said last is
/// shown as the instruction and not again.
pub proof fn law_the_last_six_messages_are_shown(
    view: TaskView,
    events: Seq<EventRecord>,
    k: int,
)
    requires
        forall|i: int, j: int|
            0 <= i < j < events.len() ==> (#[trigger] events[i]).seq < (#[trigger] events[j]).seq,
        0 <= k < events.len(),
        is_current(view, events[k]),
        events[k].event is UserMessage || events[k].event is AssistantMessage,
    ensures
        events[k].event matches SessionEvent::UserMessage { content, .. } ==> {
            let said = event_view(events[k], marks_of(window_of(view, events)));
            let repeated = exists|j: int|
                k < j < events.len() && is_current(view, #[trigger] events[j]) && (
                events[j].event is UserMessage || events[j].event is SteeringApplied);
            &&& said is Some <==> messages_from(view, events, k + 1) < 6 && repeated
            &&& said is Some ==> said->0.content == "[recent conversation]\nUser: "@ + content@
        },
        events[k].event matches SessionEvent::AssistantMessage { content, .. } ==> {
            let said = event_view(events[k], marks_of(window_of(view, events)));
            let repeated = exists|j: int|
                k < j < events.len() && is_current(view, #[trigger] events[j])
                    && events[j].event is AssistantMessage;
            &&& said is Some <==> messages_from(view, events, k + 1) < 6 || !repeated
            &&& said is Some ==> said->0.content == "[recent conversation]\nAssistant: "@
                + content@
        },
{
    let window = window_of(view, events);
    let marks = marks_of(window);
    let talk = |r: EventRecord| is_dialogue(r);
    let pick = |r: EventRecord| r.seq;
    let all = dialogue_seqs(window);
    lemma_ascending_dialogue(view, events);
    lemma_messages(view, events, k + 1);
    lemma_window_at(view, events, k);
    let first = window_of(view, events.take(k));
    let rest = window_of(view, events.skip(k + 1));
    Seq::filter_distributes_over_add(first.push(events[k]), rest, talk);
    first.lemma_filter_push(events[k], talk);
    let at = first.filter(talk).len() as int;
    let after = rest.filter(talk).len() as int;
    assert(all.len() == at + 1 + after);
    assert(window.filter(talk)[at] == events[k]);
    assert(all[at] == events[k].seq);
    assert(after == messages_from(view, events, k + 1));
    if all.len() >= 6 {
        let start = all.len() - 6;
        if at >= start {
            if at > start {
                assert(all[start] < all[at]);
            }
            assert(events[k].seq >= marks.dialogue_start);
        } else {
            assert(all[at] < all[start]);
            assert(events[k].seq < marks.dialogue_start);
        }
    }
    assert((events[k].seq >= marks.dialogue_start) == (after < 6));
    let user = |r: EventRecord| speaks_for_user(r);
    let reply = |r: EventRecord| is_assistant(r);
    if events[k].event is UserMessage {
        if exists|j: int|
            k < j < events.len() && is_current(view, #[trigger] events[j]) && (
            events[j].event is UserMessage || events[j].event is SteeringApplied) {
            let j = choose|j: int|
                k < j < events.len() && is_current(view, #[trigger] events[j]) && (
                events[j].event is UserMessage || events[j].event is SteeringApplied);
            lemma_last_of(view, events, user, j);
            let last = choose|last: int|
                j <= last < events.len() && #[trigger] is_current(view, events[last]) && user(
                    events[last],
                ) && last_seq(window, user) == Some(events[last].seq);
            assert(events[k].seq < events[last].seq);
        } else {
            lemma_mark(view, events, k, user);
        }
    } else {
        if exists|j: int|
            k < j < events.len() && is_current(view, #[trigger] events[j])
                && events[j].event is AssistantMessage {
            let j = choose|j: int|
                k < j < events.len() && is_current(view, #[trigger] events[j])
                    && events[j].event is AssistantMessage;
            lemma_last_of(view, events, reply, j);
            let last = choose|last: int|
                j <= last < events.len() && #[trigger] is_current(view, events[last]) && reply(
                    events[last],
                ) && last_seq(window, reply) == Some(events[last].seq);
            assert(events[k].seq < events[last].seq);
        } else {
            lemma_mark(view, events, k, reply);
        }
    }
}

/// The system prompt is always shown, and so are the tools of the prelude, up to
/// their bound.
pub proof fn law_the_system_prompt_is_shown(
    compiler: ContextCompiler,
    view: TaskView,
    events: Seq<EventRecord>,
    worker: Option<AgentRecord>,
)
    ensures
        exists|c: ItemView|
            #[trigger] compiler.candidates(view, events, worker).contains(c) && c.source
                == ContextSource::System && c.priority == Priority::Hard && contains(
                c.content,
                compiler.system_prompt@,
            ),
        (compiler.prelude_tools matches Some(tools) && trim_end(tools@).len() > 0) ==> exists|
            c: ItemView,
        |
            #[trigger] compiler.candidates(view, events, worker).contains(c) && c.source
                == ContextSource::System && c.priority == Priority::Hard && contains(
                c.content,
                bounded(trim_end(compiler.prelude_tools->0@), 4096),
            ),
{
    lemma_candidates_hold(compiler, view, events, worker);
    lemma_system_text(compiler, worker);
    let it = item_view(ContextSource::System, Priority::Hard, compiler.system_text(worker));
    assert(compiler.candidates(view, events, worker).contains(it));
    match compiler.prelude_tools {
        Some(tools) => {
            if trim_end(tools@).len() > 0 {
                let more = compiler.prelude_view()->0;
                lemma_in_sum(
                    "[workspace prelude tools]\nThese synchronous helpers are already defined for every PTC program in this workspace. Prefer them over reimplementing the same work inline.\n"@,
                    bounded(trim_end(tools@), 4096),
                );
                assert(compiler.candidates(view, events, worker).contains(more));
            }
        },
        None => {},
    }
}

/// The objective of the task is always shown, and so is what the user said last.
pub proof fn law_the_objective_and_the_instruction_are_shown(
    compiler: ContextCompiler,
    view: TaskView,
    events: Seq<EventRecord>,
    worker: Option<AgentRecord>,
)
    ensures
        exists|c: ItemView|
            #[trigger] compiler.candidates(view, events, worker).contains(c) && c.source
                == ContextSource::Task && c.priority == Priority::Hard && contains(
                c.content,
                view.goal.objective@,
            ),
        view.latest_user_message is Some ==> exists|c: ItemView|
            #[trigger] compiler.candidates(view, events, worker).contains(c) && c.source
                == ContextSource::CurrentInstruction && c.priority == Priority::Hard && contains(
                c.content,
                view.latest_user_message->0@,
            ),
{
    lemma_candidates_hold(compiler, view, events, worker);
    let objective = ContextCompiler::objective_view(view, worker);
    lemma_in_sum(
        "["@ + (if worker is Some {
            "delegated objective"@
        } else {
            "objective"@
        }) + "]\n"@,
        view.goal.objective@,
    );
    assert(compiler.candidates(view, events, worker).contains(objective));
    match view.latest_user_message {
        Some(message) => {
            let it = ContextCompiler::instruction_view(view)->0;
            lemma_in_sum("[current user instruction]\n"@, message@);
            assert(compiler.candidates(view, events, worker).contains(it));
        },
        None => {},
    }
}

/// The goal and the work of a task are always shown, and so is the state that an
/// earlier window left.
pub proof fn law_the_state_of_the_task_is_shown(
    compiler: ContextCompiler,
    view: TaskView,
    events: Seq<EventRecord>,
    worker: Option<AgentRecord>,
)
    ensures
        exists|c: ItemView|
            #[trigger] compiler.candidates(view, events, worker).contains(c) && c.source
                == ContextSource::Goal && c.priority == Priority::Sticky && c.content
                == goal_text(view),
        exists|c: ItemView|
            #[trigger] compiler.candidates(view, events, worker).contains(c) && c.source
                == ContextSource::WorkState && c.priority == Priority::Sticky && c.content
                == work_text(view),
        view.checkpoint is Some ==> exists|c: ItemView|
            #[trigger] compiler.candidates(view, events, worker).contains(c) && c.source
                == ContextSource::Compaction && c.priority == Priority::Sticky && c.content
                == view.checkpoint->0.rendered(),
{
    lemma_candidates_hold(compiler, view, events, worker);
    let goal = item_view(ContextSource::Goal, Priority::Sticky, goal_text(view));
    let work = item_view(ContextSource::WorkState, Priority::Sticky, work_text(view));
    assert(compiler.candidates(view, events, worker).contains(goal));
    assert(compiler.candidates(view, events, worker).contains(work));
    if view.checkpoint is Some {
        let it = ContextCompiler::checkpoint_view(view)->0;
        assert(compiler.candidates(view, events, worker).contains(it));
    }
}

/// A worker is shown the context that its parent gave it, up to its bound.
pub proof fn law_a_worker_is_shown_what_its_parent_gave(
    compiler: ContextCompiler,
    view: TaskView,
    events: Seq<EventRecord>,
    record: AgentRecord,
)
    requires
        record.context.text@ != "null"@,
    ensures
        exists|c: ItemView|
            #[trigger] compiler.candidates(view, events, Some(record)).contains(c) && c.source
                == ContextSource::CurrentInstruction && c.content
                == "[parent-provided context]\n"@ + bounded(record.context.pretty(), 8192),
{
    lemma_candidates_hold(compiler, view, events, Some(record));
    let it = ContextCompiler::parent_view(Some(record))->0;
    assert(compiler.candidates(view, events, Some(record)).contains(it));
}

/// A worker is told that it is one, and what it may do.
pub proof fn law_a_worker_is_told_what_it_may_do(compiler: ContextCompiler, record: AgentRecord)
    ensures
        contains(
            compiler.system_text(Some(record)),
            "\n\nYou are a delegated worker with a parent. Delegation depth is one: agent_spawn, agent_join, delegate, and integrate are unavailable to you. "@,
        ),
        record.access == AgentAccess::Read ==> contains(
            compiler.system_text(Some(record)),
            "You may read the workspace. Writes and subprocesses are disabled."@,
        ),
        record.access == AgentAccess::IsolatedWrite ==> contains(
            compiler.system_text(Some(record)),
            "You work in a private workspace forked from the parent revision. Your changes reach the parent only if the parent integrates them."@,
        ),
{
    let t0 = "[system]\n"@ + compiler.system_prompt@;
    let p1 =
        "\n\nYou are a delegated worker with a parent. Delegation depth is one: agent_spawn, agent_join, delegate, and integrate are unavailable to you. "@;
    let p2 = crate::context::capability_text(record.access);
    let p3 = " Report a compact final result through finish(), not a transcript."@;
    let p4 = crate::context::profile_text(record.profile);
    lemma_in_sum(t0, p1);
    lemma_in_sum(p2, p2);
    lemma_contains_in_sum(t0 + p1, p2, p1);
    lemma_contains_in_sum(t0 + p1, p2, p2);
    lemma_contains_in_sum(t0 + p1 + p2, p3, p1);
    lemma_contains_in_sum(t0 + p1 + p2, p3, p2);
    lemma_contains_in_sum(t0 + p1 + p2 + p3, p4, p1);
    lemma_contains_in_sum(t0 + p1 + p2 + p3, p4, p2);
}

proof fn lemma_system_text(compiler: ContextCompiler, worker: Option<AgentRecord>)
    ensures
        contains(compiler.system_text(worker), compiler.system_prompt@),
{
    let prompt = compiler.system_prompt@;
    let t0 = "[system]\n"@ + prompt;
    lemma_in_sum("[system]\n"@, prompt);
    match worker {
        None => {},
        Some(record) => {
            let p1 =
                "\n\nYou are a delegated worker with a parent. Delegation depth is one: agent_spawn, agent_join, delegate, and integrate are unavailable to you. "@;
            let p2 = crate::context::capability_text(record.access);
            let p3 = " Report a compact final result through finish(), not a transcript."@;
            let p4 = crate::context::profile_text(record.profile);
            lemma_contains_in_sum(t0, p1, prompt);
            lemma_contains_in_sum(t0 + p1, p2, prompt);
            lemma_contains_in_sum(t0 + p1 + p2, p3, prompt);
            lemma_contains_in_sum(t0 + p1 + p2 + p3, p4, prompt);
        },
    }
}

} // verus!
