//! What the user is shown.
use vstd::prelude::*;
use crate::agent::AgentEvent;
use crate::cli::summary_of;
use crate::display::{count_live, count_running, event_lines, evidence_lines, evidence_shown, indented, left, live_workers, model_line, newest_answer, notes_of, report_lines, right, section_lines, session_lines, shown_lines, summaries_of, task_heading, task_lines, verdict_word, SessionSummary, Shown};
use crate::goal::{titles_of, Line};
use crate::laws::completion::lemma_sum_contains;
use crate::laws::texts::{lemma_in_sum, lemma_shows};
use crate::model::ModelEvent;
use crate::runtime::TaskReport;
use crate::session::{is_newest, newest_from, EventRecord, TaskView};
use crate::text::{contains, decimal, joined, views};

verus! {

proof fn lemma_in_task_lines(view: TaskView, line: Seq<char>)
    requires
        (task_heading(view)).contains(line)
            || (section_lines("acceptance criteria"@, shown_lines(view.goal.acceptance_criteria@))).contains(line)
            || (section_lines("completed"@, titles_of(view.goal.completed_work@))).contains(line)
            || (section_lines("pending"@, shown_lines(view.goal.pending_work@))).contains(line)
            || (section_lines("blockers"@, shown_lines(view.goal.blockers@))).contains(line)
            || (section_lines("decisions"@, shown_lines(view.goal.decisions@))).contains(line)
            || (section_lines("findings"@, shown_lines(view.goal.findings@))).contains(line)
            || (section_lines("failed approaches"@, shown_lines(view.goal.failed_approaches@))).contains(line)
            || (section_lines("next actions"@, views(view.goal.next_actions@))).contains(line)
            || (section_lines("changed paths"@, views(view.changed_paths@))).contains(line)
            || (section_lines("pending steering"@, summaries_of(views(view.pending_steering@), 120))).contains(line)
            || (section_lines("verification"@, evidence_lines(view))).contains(line)
            || (section_lines("workers"@, shown_lines(view.agents@))).contains(line)
            || (section_lines("processes"@, shown_lines(view.processes@))).contains(line)
            || (section_lines("outcome-unknown executions"@, shown_lines(view.outcome_unknown_executions@))).contains(line)
            || (section_lines("unresolved recovery workspaces"@, shown_lines(view.unresolved_recovery_workspaces@))).contains(line),
    ensures
        task_lines(view).contains(line),
{
    let p0 = task_heading(view);
    let p1 = section_lines("acceptance criteria"@, shown_lines(view.goal.acceptance_criteria@));
    let p2 = section_lines("completed"@, titles_of(view.goal.completed_work@));
    let p3 = section_lines("pending"@, shown_lines(view.goal.pending_work@));
    let p4 = section_lines("blockers"@, shown_lines(view.goal.blockers@));
    let p5 = section_lines("decisions"@, shown_lines(view.goal.decisions@));
    let p6 = section_lines("findings"@, shown_lines(view.goal.findings@));
    let p7 = section_lines("failed approaches"@, shown_lines(view.goal.failed_approaches@));
    let p8 = section_lines("next actions"@, views(view.goal.next_actions@));
    let p9 = section_lines("changed paths"@, views(view.changed_paths@));
    let p10 = section_lines("pending steering"@, summaries_of(views(view.pending_steering@), 120));
    let p11 = section_lines("verification"@, evidence_lines(view));
    let p12 = section_lines("workers"@, shown_lines(view.agents@));
    let p13 = section_lines("processes"@, shown_lines(view.processes@));
    let p14 = section_lines("outcome-unknown executions"@, shown_lines(view.outcome_unknown_executions@));
    let p15 = section_lines("unresolved recovery workspaces"@, shown_lines(view.unresolved_recovery_workspaces@));
    lemma_sum_contains(p0, p1);
    let t1 = p0 + p1;
    lemma_sum_contains(t1, p2);
    let t2 = t1 + p2;
    lemma_sum_contains(t2, p3);
    let t3 = t2 + p3;
    lemma_sum_contains(t3, p4);
    let t4 = t3 + p4;
    lemma_sum_contains(t4, p5);
    let t5 = t4 + p5;
    lemma_sum_contains(t5, p6);
    let t6 = t5 + p6;
    lemma_sum_contains(t6, p7);
    let t7 = t6 + p7;
    lemma_sum_contains(t7, p8);
    let t8 = t7 + p8;
    lemma_sum_contains(t8, p9);
    let t9 = t8 + p9;
    lemma_sum_contains(t9, p10);
    let t10 = t9 + p10;
    lemma_sum_contains(t10, p11);
    let t11 = t10 + p11;
    lemma_sum_contains(t11, p12);
    let t12 = t11 + p12;
    lemma_sum_contains(t12, p13);
    let t13 = t12 + p13;
    lemma_sum_contains(t13, p14);
    let t14 = t13 + p14;
    lemma_sum_contains(t14, p15);
    assert(task_lines(view) == t14 + p15);
}

proof fn lemma_section_line(title: Seq<char>, items: Seq<Seq<char>>, i: int)
    requires
        0 <= i < items.len(),
    ensures
        section_lines(title, items).contains("  "@ + items[i]),
{
    let all = section_lines(title, items);
    assert(indented(items)[i] == "  "@ + items[i]);
    assert(all[i + 1] == "  "@ + items[i]);
}

/// Whether some line shows a text.
pub open spec fn shows(lines: Seq<Seq<char>>, text: Seq<char>) -> bool {
    exists|k: int| 0 <= k < lines.len() && contains(#[trigger] lines[k], text)
}

proof fn lemma_line_shows(lines: Seq<Seq<char>>, line: Seq<char>, text: Seq<char>)
    requires
        lines.contains(line),
        contains(line, text),
    ensures
        shows(lines, text),
{
    let k = choose|k: int| 0 <= k < lines.len() && lines[k] == line;
    assert(contains(lines[k], text));
}

proof fn lemma_item_shows(view: TaskView, item: Seq<char>, text: Seq<char>)
    requires
        task_lines(view).contains("  "@ + item),
        contains(item, text),
    ensures
        shows(task_lines(view), text),
{
    lemma_in_sum("  "@, item);
    lemma_shows("  "@ + item, item, text);
    lemma_line_shows(task_lines(view), "  "@ + item, text);
}

/// Who looks at a task sees its number, its status, its objective and its
/// revision.
pub proof fn law_a_task_is_shown_by_its_heading(view: TaskView)
    ensures
        shows(task_lines(view), decimal(view.task_id.0 as nat)),
        shows(task_lines(view), view.goal.status.name()),
        shows(task_lines(view), view.goal.objective@),
        shows(task_lines(view), view.goal.current_revision.0@),
        view.cancel_requested ==> task_lines(view).contains("cancel: requested"@),
{
    let all = task_heading(view);
    lemma_in_sum("task "@, decimal(view.task_id.0 as nat));
    lemma_in_sum("status: "@, view.goal.status.name());
    lemma_in_sum("objective: "@, view.goal.objective@);
    lemma_in_sum("revision: "@, view.goal.current_revision.0@);
    assert(all[0] == "task "@ + decimal(view.task_id.0 as nat));
    assert(all[2] == "status: "@ + view.goal.status.name());
    assert(all[3] == "objective: "@ + view.goal.objective@);
    assert(all[5] == "revision: "@ + view.goal.current_revision.0@);
    lemma_in_task_lines(view, all[0]);
    lemma_in_task_lines(view, all[2]);
    lemma_in_task_lines(view, all[3]);
    lemma_in_task_lines(view, all[5]);
    lemma_line_shows(task_lines(view), all[0], decimal(view.task_id.0 as nat));
    lemma_line_shows(task_lines(view), all[2], view.goal.status.name());
    lemma_line_shows(task_lines(view), all[3], view.goal.objective@);
    lemma_line_shows(task_lines(view), all[5], view.goal.current_revision.0@);
    if view.cancel_requested {
        assert(all[7] == "cancel: requested"@);
        lemma_in_task_lines(view, all[7]);
    }
}

/// Who looks at a task sees what it has to do, what it did, what is in its way and
/// what comes next.
pub proof fn law_the_work_of_a_task_is_shown(view: TaskView, i: int)
    ensures
        0 <= i < view.goal.acceptance_criteria@.len() ==> task_lines(view).contains(
            "  "@ + view.goal.acceptance_criteria@[i].shown(),
        ) && contains(
            view.goal.acceptance_criteria@[i].shown(),
            (if view.goal.acceptance_criteria@[i].met {
                "[x] "@
            } else {
                "[ ] "@
            }) + view.goal.acceptance_criteria@[i].description@,
        ),
        0 <= i < view.goal.completed_work@.len() ==> task_lines(view).contains(
            "  "@ + view.goal.completed_work@[i].title@,
        ),
        0 <= i < view.goal.pending_work@.len() ==> shows(
            task_lines(view),
            view.goal.pending_work@[i].title@,
        ),
        0 <= i < view.goal.blockers@.len() ==> shows(
            task_lines(view),
            view.goal.blockers@[i].summary@,
        ),
        0 <= i < view.goal.next_actions@.len() ==> task_lines(view).contains(
            "  "@ + view.goal.next_actions@[i]@,
        ),
        0 <= i < view.changed_paths@.len() ==> task_lines(view).contains(
            "  "@ + view.changed_paths@[i]@,
        ),
{
    if 0 <= i < view.goal.acceptance_criteria@.len() {
        let c = view.goal.acceptance_criteria@[i];
        let items = shown_lines(view.goal.acceptance_criteria@);
        assert(items[i] == c.shown());
        lemma_section_line("acceptance criteria"@, items, i);
        lemma_in_task_lines(view, "  "@ + items[i]);
        let main = (if c.met {
            "[x] "@
        } else {
            "[ ] "@
        }) + c.description@;
        lemma_in_sum(main, main);
        match c.evidence_kind {
            Some(kind) => {
                lemma_in_sum(main, " (evidence: "@);
                lemma_in_sum(main + " (evidence: "@, kind@);
                lemma_in_sum(main + " (evidence: "@ + kind@, ")"@);
                lemma_shows(
                    main + " (evidence: "@ + kind@,
                    main + " (evidence: "@,
                    main,
                );
                lemma_shows(
                    main + " (evidence: "@ + kind@ + ")"@,
                    main + " (evidence: "@ + kind@,
                    main,
                );
            },
            None => {},
        }
    }
    if 0 <= i < view.goal.completed_work@.len() {
        let items = titles_of(view.goal.completed_work@);
        assert(items[i] == view.goal.completed_work@[i].title@);
        lemma_section_line("completed"@, items, i);
        lemma_in_task_lines(view, "  "@ + items[i]);
    }
    if 0 <= i < view.goal.pending_work@.len() {
        let w = view.goal.pending_work@[i];
        let items = shown_lines(view.goal.pending_work@);
        assert(items[i] == w.shown());
        lemma_section_line("pending"@, items, i);
        lemma_in_task_lines(view, "  "@ + items[i]);
        crate::laws::rollover::lemma_dashed(w.title@, " — "@, w.detail);
        lemma_item_shows(view, items[i], w.title@);
    }
    if 0 <= i < view.goal.blockers@.len() {
        let b = view.goal.blockers@[i];
        let items = shown_lines(view.goal.blockers@);
        assert(items[i] == b.shown());
        lemma_section_line("blockers"@, items, i);
        lemma_in_task_lines(view, "  "@ + items[i]);
        lemma_in_sum(b.summary@, b.summary@);
        match b.needs {
            Some(needs) => {
                lemma_in_sum(b.summary@, " (needs: "@);
                lemma_in_sum(b.summary@ + " (needs: "@, needs@);
                lemma_in_sum(b.summary@ + " (needs: "@ + needs@, ")"@);
                lemma_shows(
                    b.summary@ + " (needs: "@ + needs@,
                    b.summary@ + " (needs: "@,
                    b.summary@,
                );
                lemma_shows(
                    b.summary@ + " (needs: "@ + needs@ + ")"@,
                    b.summary@ + " (needs: "@ + needs@,
                    b.summary@,
                );
            },
            None => {},
        }
        lemma_item_shows(view, items[i], b.summary@);
    }
    if 0 <= i < view.goal.next_actions@.len() {
        let items = views(view.goal.next_actions@);
        assert(items[i] == view.goal.next_actions@[i]@);
        lemma_section_line("next actions"@, items, i);
        lemma_in_task_lines(view, "  "@ + items[i]);
    }
    if 0 <= i < view.changed_paths@.len() {
        let items = views(view.changed_paths@);
        assert(items[i] == view.changed_paths@[i]@);
        lemma_section_line("changed paths"@, items, i);
        lemma_in_task_lines(view, "  "@ + items[i]);
    }
}

/// Who looks at a task sees what it decided, what it found and what failed.
pub proof fn law_the_findings_of_a_task_are_shown(view: TaskView, i: int)
    ensures
        0 <= i < view.goal.decisions@.len() ==> shows(
            task_lines(view),
            view.goal.decisions@[i].decision@,
        ),
        0 <= i < view.goal.findings@.len() ==> shows(
            task_lines(view),
            view.goal.findings@[i].summary@,
        ),
        0 <= i < view.goal.failed_approaches@.len() ==> shows(
            task_lines(view),
            view.goal.failed_approaches@[i].approach@,
        ) && shows(task_lines(view), view.goal.failed_approaches@[i].reason@),
{
    if 0 <= i < view.goal.decisions@.len() {
        let d = view.goal.decisions@[i];
        let items = shown_lines(view.goal.decisions@);
        assert(items[i] == d.shown());
        lemma_section_line("decisions"@, items, i);
        lemma_in_task_lines(view, "  "@ + items[i]);
        crate::laws::rollover::lemma_dashed(d.decision@, " — "@, d.rationale);
        lemma_item_shows(view, items[i], d.decision@);
    }
    if 0 <= i < view.goal.findings@.len() {
        let f = view.goal.findings@[i];
        let items = shown_lines(view.goal.findings@);
        assert(items[i] == f.shown());
        lemma_section_line("findings"@, items, i);
        lemma_in_task_lines(view, "  "@ + items[i]);
        let lead = f.summary@ + " ["@;
        let paths = joined(views(f.paths@), ", "@);
        lemma_in_sum(f.summary@, " ["@);
        lemma_in_sum(lead, paths);
        lemma_in_sum(lead + paths, "]"@);
        lemma_shows(lead + paths, lead, f.summary@);
        lemma_shows(lead + paths + "]"@, lead + paths, f.summary@);
        lemma_item_shows(view, items[i], f.summary@);
    }
    if 0 <= i < view.goal.failed_approaches@.len() {
        let f = view.goal.failed_approaches@[i];
        let items = shown_lines(view.goal.failed_approaches@);
        assert(items[i] == f.shown());
        lemma_section_line("failed approaches"@, items, i);
        lemma_in_task_lines(view, "  "@ + items[i]);
        lemma_in_sum(f.approach@, " — "@);
        lemma_in_sum(f.approach@ + " — "@, f.reason@);
        lemma_shows(f.shown(), f.approach@ + " — "@, f.approach@);
        lemma_item_shows(view, items[i], f.approach@);
        lemma_item_shows(view, items[i], f.reason@);
    }
}

/// Who looks at a task sees its workers and its processes with their states, and
/// every execution that has no known outcome.
pub proof fn law_what_runs_for_a_task_is_shown(view: TaskView, i: int)
    ensures
        0 <= i < view.agents@.len() ==> shows(
            task_lines(view),
            decimal(view.agents@[i].agent.0 as nat) + " "@ + view.agents@[i].state.name(),
        ),
        0 <= i < view.processes@.len() ==> shows(
            task_lines(view),
            decimal(view.processes@[i].process.0 as nat) + " "@ + view.processes@[i].state@,
        ),
        0 <= i < view.outcome_unknown_executions@.len() ==> task_lines(view).contains(
            "  "@ + decimal(view.outcome_unknown_executions@[i].0 as nat),
        ),
        0 <= i < view.pending_steering@.len() ==> task_lines(view).contains(
            "  "@ + summary_of(view.pending_steering@[i]@, 120),
        ),
{
    if 0 <= i < view.agents@.len() {
        let a = view.agents@[i];
        let items = shown_lines(view.agents@);
        assert(items[i] == a.shown());
        lemma_section_line("workers"@, items, i);
        lemma_in_task_lines(view, "  "@ + items[i]);
        let main = decimal(a.agent.0 as nat) + " "@ + a.state.name();
        let last = summary_of(a.objective@, 80);
        lemma_in_sum(main, " — "@);
        lemma_in_sum(main + " — "@, last);
        lemma_shows(main + " — "@ + last, main + " — "@, main);
        lemma_item_shows(view, items[i], main);
    }
    if 0 <= i < view.processes@.len() {
        let p = view.processes@[i];
        let items = shown_lines(view.processes@);
        assert(items[i] == p.shown());
        lemma_section_line("processes"@, items, i);
        lemma_in_task_lines(view, "  "@ + items[i]);
        let main = decimal(p.process.0 as nat) + " "@ + p.state@;
        let code = match p.exit_code {
            Some(code) => " exit "@ + crate::text::signed_decimal(code as int),
            None => ""@,
        };
        let argv = joined(views(p.argv@), " "@);
        lemma_in_sum(main, code);
        lemma_in_sum(main + code, " — "@);
        lemma_in_sum(main + code + " — "@, argv);
        lemma_shows(main + code + " — "@, main + code, main);
        lemma_shows(main + code + " — "@ + argv, main + code + " — "@, main);
        lemma_item_shows(view, items[i], main);
    }
    if 0 <= i < view.outcome_unknown_executions@.len() {
        let items = shown_lines(view.outcome_unknown_executions@);
        assert(items[i] == decimal(view.outcome_unknown_executions@[i].0 as nat));
        lemma_section_line("outcome-unknown executions"@, items, i);
        lemma_in_task_lines(view, "  "@ + items[i]);
    }
    if 0 <= i < view.pending_steering@.len() {
        let items = summaries_of(views(view.pending_steering@), 120);
        assert(items[i] == summary_of(view.pending_steering@[i]@, 120));
        lemma_section_line("pending steering"@, items, i);
        lemma_in_task_lines(view, "  "@ + items[i]);
    }
}

/// Who looks at a task sees the last verification of each kind, whether it passed,
/// and whether it still holds.
pub proof fn law_the_verifications_of_a_task_are_shown(view: TaskView, i: int)
    requires
        0 <= i < view.evidence@.len(),
        forall|j: int|
            i < j < view.evidence@.len() ==> (#[trigger] view.evidence@[j]).kind@
                != view.evidence@[i].kind@,
    ensures
        shows(
            task_lines(view),
            view.evidence@[i].kind@ + ": "@ + (if view.evidence@[i].ok {
                "pass"@
            } else {
                "fail"@
            }) + (if view.fresh(view.evidence@[i]) {
                " (fresh)"@
            } else {
                " (stale)"@
            }),
        ),
{
    let record = view.evidence@[i];
    let newest = newest_from(view.evidence@, 0);
    assert(is_newest(view.evidence@, i));
    crate::laws::completion::lemma_newest(view.evidence@, 0);
    let k = choose|k: int| 0 <= k < newest.len() && newest[k] == i;
    let items = evidence_lines(view);
    assert(items[k] == evidence_shown(view, record));
    lemma_section_line("verification"@, items, k);
    lemma_in_task_lines(view, "  "@ + items[k]);
    let main = record.kind@ + ": "@ + verdict_word(record.ok) + (if view.fresh(record) {
        " (fresh)"@
    } else {
        " (stale)"@
    });
    lemma_in_sum(main, main);
    match record.note {
        Some(note) => {
            lemma_in_sum(main, " — "@);
            lemma_in_sum(main + " — "@, note@);
            lemma_shows(main + " — "@ + note@, main + " — "@, main);
        },
        None => {},
    }
    lemma_item_shows(view, items[k], main);
}

/// What happens to a task is told as it happens, with what it is about.
pub proof fn law_events_are_told_with_what_they_are_about(event: AgentEvent, i: int)
    ensures
        event matches AgentEvent::AssistantMessage { content } ==> shows(
            event_lines(event),
            content@,
        ),
        event matches AgentEvent::TaskCompleted { summary } ==> shows(event_lines(event), summary@),
        event matches AgentEvent::SteeringApplied { content } ==> shows(
            event_lines(event),
            content@,
        ),
        event matches AgentEvent::SteeringQueued { content } ==> shows(event_lines(event), content@),
        event matches AgentEvent::AgentSpawned { objective, .. } ==> shows(
            event_lines(event),
            objective@,
        ),
        event matches AgentEvent::AgentSettled { state, .. } ==> shows(
            event_lines(event),
            state.name(),
        ),
        event matches AgentEvent::EvidenceRecorded { kind, ok } ==> event_lines(event) == seq![
            "[verify] "@ + kind@ + ": "@ + (if ok {
                "pass"@
            } else {
                "fail"@
            }),
        ],
        event matches AgentEvent::FinishProposed { accepted, objections } ==> (if accepted {
            event_lines(event) == seq!["[finish] accepted"@]
        } else {
            event_lines(event)[0] == "[finish] refused"@ && event_lines(event).len()
                == objections@.len() + 1 && (0 <= i < objections@.len() ==> event_lines(event)[i
                + 1] == "  "@ + objections@[i]@)
        }),
        event matches AgentEvent::PtcHostCallCompleted { name, ok, .. } ==> shows(
            event_lines(event),
            name@ + (if ok {
                ": ok ("@
            } else {
                ": failed ("@
            }),
        ),
        event matches AgentEvent::ProcessExited { exit_code: Some(code), .. } ==> shows(
            event_lines(event),
            "exited "@ + crate::text::signed_decimal(code as int),
        ),
{
    let all = event_lines(event);
    match event {
        AgentEvent::AssistantMessage { content } => {
            lemma_in_sum("[assistant] "@, content@);
            lemma_line_shows(all, all[0], content@);
        },
        AgentEvent::TaskCompleted { summary } => {
            lemma_in_sum("[task] completed: "@, summary@);
            lemma_line_shows(all, all[0], summary@);
        },
        AgentEvent::SteeringApplied { content } => {
            lemma_in_sum("[steering] applied: "@, content@);
            lemma_line_shows(all, all[0], content@);
        },
        AgentEvent::SteeringQueued { content } => {
            lemma_in_sum("[steering] queued: "@, content@);
            lemma_line_shows(all, all[0], content@);
        },
        AgentEvent::AgentSpawned { agent, objective } => {
            lemma_in_sum(
                crate::display::tagged("worker "@, agent.0 as nat) + "spawned: "@,
                objective@,
            );
            lemma_line_shows(all, all[0], objective@);
        },
        AgentEvent::AgentSettled { agent, state } => {
            lemma_in_sum(crate::display::tagged("worker "@, agent.0 as nat), state.name());
            lemma_line_shows(all, all[0], state.name());
        },
        AgentEvent::FinishProposed { accepted, objections } => {
            if !accepted {
                let items = views(objections@);
                assert(indented(items).len() == objections@.len());
                if 0 <= i < objections@.len() {
                    assert(indented(items)[i] == "  "@ + items[i]);
                    assert(items[i] == objections@[i]@);
                }
            }
        },
        AgentEvent::PtcHostCallCompleted { call_id, name, ok, duration_ms } => {
            let tag = crate::display::tagged("ptc:"@, call_id as nat);
            let word = if ok {
                ": ok ("@
            } else {
                ": failed ("@
            };
            let main = name@ + word;
            let whole = tag + name@ + word;
            assert(whole =~= tag + main);
            lemma_in_sum(tag, main);
            let ms = decimal(duration_ms as nat);
            lemma_in_sum(whole, ms);
            lemma_in_sum(whole + ms, " ms)"@);
            lemma_shows(whole + ms, whole, main);
            lemma_shows(whole + ms + " ms)"@, whole + ms, main);
            lemma_line_shows(all, all[0], main);
        },
        AgentEvent::ProcessExited { process, exit_code: Some(code) } => {
            let tag = crate::display::tagged("process "@, process.0 as nat);
            let n = crate::text::signed_decimal(code as int);
            assert(tag + "exited "@ + n =~= tag + ("exited "@ + n));
            lemma_in_sum(tag, "exited "@ + n);
            lemma_line_shows(all, all[0], "exited "@ + n);
        },
        _ => {},
    }
}

/// The steps of the reasoning are told; the text of an answer is told when it is
/// whole, and not piece by piece.
pub proof fn law_reasoning_is_told(delta: String, name: String)
    ensures
        model_line(ModelEvent::ReasoningSummaryDelta(delta)) == Some("[reasoning] "@ + delta@),
        model_line(ModelEvent::OutputTextDelta(delta)) is None,
        model_line(ModelEvent::FunctionCall { name }) == Some("[provider tool] "@ + name@),
{
}

/// A line of the list of tasks has the number, the status and the objective of the
/// task, and says what is going on with it.
pub proof fn law_a_task_is_listed_with_what_goes_on(report: TaskReport)
    ensures
        contains(report_lines(report)[0], decimal(report.task_id.0 as nat)),
        contains(report_lines(report)[0], report.status.name()),
        contains(report_lines(report)[0], summary_of(report.objective@, 64)),
        report.cancel_requested ==> notes_of(report).contains("cancel requested"@),
        report.pending_steering@.len() > 0 ==> notes_of(report).contains(
            decimal(report.pending_steering@.len()) + " steering queued"@,
        ),
        live_workers(report) > 0 ==> notes_of(report).contains(
            decimal(live_workers(report)) + " live worker(s)"@,
        ),
        count_running(report, report.processes@.len()) > 0 ==> notes_of(report).contains(
            decimal(count_running(report, report.processes@.len())) + " running process(es)"@,
        ),
        report.pending@.len() > 0 ==> notes_of(report).contains(
            decimal(report.pending@.len()) + " pending"@,
        ),
        report.blockers@.len() > 0 ==> notes_of(report).contains(
            decimal(report.blockers@.len()) + " blocker(s)"@,
        ),
{
    lemma_report_line(report);
    let n0 = if report.cancel_requested {
        seq!["cancel requested"@]
    } else {
        Seq::empty()
    };
    let n1 = crate::display::counted(report.pending_steering@.len(), " steering queued"@);
    let n2 = crate::display::counted(live_workers(report), " live worker(s)"@);
    let n3 = crate::display::counted(
        count_running(report, report.processes@.len()),
        " running process(es)"@,
    );
    let n4 = crate::display::counted(report.pending@.len(), " pending"@);
    let n5 = crate::display::counted(report.blockers@.len(), " blocker(s)"@);
    lemma_counted(report.pending_steering@.len(), " steering queued"@);
    lemma_counted(live_workers(report), " live worker(s)"@);
    lemma_counted(count_running(report, report.processes@.len()), " running process(es)"@);
    lemma_counted(report.pending@.len(), " pending"@);
    lemma_counted(report.blockers@.len(), " blocker(s)"@);
    if report.cancel_requested {
        assert(n0[0] == "cancel requested"@);
    }
    lemma_sum_contains(n0, n1);
    lemma_sum_contains(n0 + n1, n2);
    lemma_sum_contains(n0 + n1 + n2, n3);
    lemma_sum_contains(n0 + n1 + n2 + n3, n4);
    lemma_sum_contains(n0 + n1 + n2 + n3 + n4, n5);
}

proof fn lemma_counted(n: nat, what: Seq<char>)
    ensures
        n > 0 ==> crate::display::counted(n, what).contains(decimal(n) + what),
{
    if n > 0 {
        assert(crate::display::counted(n, what)[0] == decimal(n) + what);
    }
}

proof fn lemma_padded(s: Seq<char>, width: nat)
    ensures
        contains(right(s, width), s),
        contains(left(s, width), s),
{
    lemma_in_sum(s, s);
    if s.len() < width {
        let pad = crate::display::spaces((width - s.len()) as nat);
        lemma_in_sum(pad, s);
        lemma_in_sum(s, pad);
    }
}

proof fn lemma_report_line(report: TaskReport)
    ensures
        contains(report_lines(report)[0], decimal(report.task_id.0 as nat)),
        contains(report_lines(report)[0], report.status.name()),
        contains(report_lines(report)[0], summary_of(report.objective@, 64)),
{
    let id = decimal(report.task_id.0 as nat);
    let status = report.status.name();
    let a = right(id, 4);
    let b = left(status, 14);
    let c = right(decimal(report.window as nat), 6);
    let d = summary_of(report.objective@, 64);
    lemma_padded(id, 4);
    lemma_padded(status, 14);
    let t1 = a + "  "@;
    let t2 = t1 + b;
    let t3 = t2 + "  "@;
    let t4 = t3 + c;
    let t5 = t4 + "  "@;
    lemma_in_sum(a, "  "@);
    lemma_in_sum(t1, b);
    lemma_in_sum(t2, "  "@);
    lemma_in_sum(t3, c);
    lemma_in_sum(t4, "  "@);
    lemma_in_sum(t5, d);
    lemma_shows(t1, a, id);
    lemma_shows(t2, t1, id);
    lemma_shows(t3, t2, id);
    lemma_shows(t4, t3, id);
    lemma_shows(t5, t4, id);
    lemma_shows(t5 + d, t5, id);
    lemma_shows(t2, b, status);
    lemma_shows(t3, t2, status);
    lemma_shows(t4, t3, status);
    lemma_shows(t5, t4, status);
    lemma_shows(t5 + d, t5, status);
    assert(report_lines(report)[0] == t5 + d);
}

/// The workers that are counted as live are those at work, and the processes that
/// are counted as running those that run.
pub proof fn law_live_workers_and_processes_are_counted(report: TaskReport, n: nat)
    ensures
        count_live(report, 0) == 0,
        count_running(report, 0) == 0,
        count_live(report, n + 1) == count_live(report, n)
            + if crate::laws::completion::at_work(report.workers@[n as int].1) {
            1nat
        } else {
            0nat
        },
        count_running(report, n + 1) == count_running(report, n)
            + if report.processes@[n as int].1@ == "running"@ {
            1nat
        } else {
            0nat
        },
        live_workers(report) == count_live(report, report.workers@.len()),
{
}

/// The last answer of a session is the last thing that the model said in it.
pub proof fn law_the_last_answer_is_shown(
    session: SessionSummary,
    events: Seq<EventRecord>,
    k: int,
)
    ensures
        0 <= k < events.len() && events[k].event is AssistantMessage && (forall|j: int|
            k < j < events.len() ==> !((#[trigger] events[j]).event is AssistantMessage))
            ==> newest_answer(events) == Some(events[k].event->AssistantMessage_content@),
        (forall|j: int|
            0 <= j < events.len() ==> !((#[trigger] events[j]).event is AssistantMessage)) ==>
            newest_answer(events) is None,
        newest_answer(events) matches Some(answer) ==> session_lines(session, events).last()
            == "last answer: "@ + answer,
        session_lines(session, events)[0] == "id: "@ + session.id@,
    decreases events.len(),
{
    if events.len() > 0 {
        let init = events.drop_last();
        law_the_last_answer_is_shown(session, init, k);
        assert(events[events.len() - 1] == events.last());
        assert forall|j: int| 0 <= j < init.len() implies (#[trigger] init[j]) == events[j] by {}
    }
}

} // verus!
