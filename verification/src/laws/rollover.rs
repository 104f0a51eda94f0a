//! What a fresh context window learns of a task.
use vstd::prelude::*;
use crate::goal::{dashed, law_checkpoint_shows_what_is_recorded, lemma_contains_in_sum, lines_of, section_text, titles_of, ContextCheckpoint, Line};
use crate::laws::texts::{law_a_joined_text_shows_its_parts, lemma_in_sum, lemma_shows};
use crate::session::{is_checkpoint_of, is_newest, newest_from, EvidenceRecord, TaskView};
use crate::text::{contains, decimal, joined, views};

verus! {

/// A verification is fresh where both the workspace and the tools are what they
/// were when it was made, and else not.
pub proof fn law_evidence_is_fresh_where_nothing_changed(view: TaskView, record: EvidenceRecord)
    ensures
        view.fresh(record) <==> record.revision.0@ == view.goal.current_revision.0@ && (match (
            record.prelude,
            view.prelude,
        ) {
            (Some(then), Some(now)) => then.0@ == now.0@,
            (None, None) => true,
            (Some(_), None) => false,
            (None, Some(_)) => false,
        }),
{
}

/// The checkpoint of a task keeps what its goal records, thing by thing, and what
/// the runtime knows of its workers and its processes.
pub proof fn law_a_checkpoint_keeps_the_goal(c: ContextCheckpoint, view: TaskView, i: int)
    requires
        is_checkpoint_of(c, view),
    ensures
        c.task_id == view.task_id,
        c.window == view.window,
        c.objective@ == view.goal.objective@,
        c.status == view.goal.status,
        c.current_revision.0@ == view.goal.current_revision.0@,
        c.last_verified_revision == view.goal.last_verified_revision,
        c.acceptance_criteria@ == view.goal.acceptance_criteria@,
        c.decisions@ == view.goal.decisions@,
        c.completed@ == view.goal.completed_work@,
        c.pending@ == view.goal.pending_work@,
        c.blockers@ == view.goal.blockers@,
        c.failed_approaches@ == view.goal.failed_approaches@,
        c.next_actions@ == view.goal.next_actions@,
        c.changed_paths@ == view.changed_paths@,
        c.important_findings@.len() == view.goal.findings@.len(),
        0 <= i < view.goal.findings@.len() ==> c.important_findings@[i].summary
            == view.goal.findings@[i].summary && c.important_findings@[i].paths@
            == view.goal.findings@[i].paths@,
        c.active_agents@.len() == view.agents@.len(),
        0 <= i < view.agents@.len() ==> c.active_agents@[i].agent == view.agents@[i].agent
            && c.active_agents@[i].task == view.agents@[i].objective && c.active_agents@[i].state@
            == view.agents@[i].state.name() && (c.active_agents@[i].summary is Some
            <==> view.agents@[i].result is Some) && (view.agents@[i].result is Some
            ==> c.active_agents@[i].summary->0 == view.agents@[i].result->0.summary),
        c.active_processes@.len() == view.processes@.len(),
        0 <= i < view.processes@.len() ==> c.active_processes@[i].process
            == view.processes@[i].process && c.active_processes@[i].state
            == view.processes@[i].state && c.active_processes@[i].argv@ == view.processes@[i].argv@
            && c.active_processes@[i].exit_code == view.processes@[i].exit_code,
{
    if 0 <= i < view.goal.findings@.len() {
        assert(c.important_findings@[i] == c.important_findings@[i]);
    }
    if 0 <= i < view.agents@.len() {
        assert(c.active_agents@[i] == c.active_agents@[i]);
    }
    if 0 <= i < view.processes@.len() {
        assert(c.active_processes@[i] == c.active_processes@[i]);
    }
}

/// The last verification of each kind is in the checkpoint, with its outcome and
/// whether it still speaks for the workspace.
pub proof fn law_a_checkpoint_keeps_the_last_verifications(
    c: ContextCheckpoint,
    view: TaskView,
    i: int,
)
    requires
        is_checkpoint_of(c, view),
        0 <= i < view.evidence@.len(),
        forall|j: int|
            i < j < view.evidence@.len() ==> (#[trigger] view.evidence@[j]).kind@
                != view.evidence@[i].kind@,
    ensures
        exists|k: int|
            0 <= k < c.verification@.len() && (#[trigger] c.verification@[k]).kind
                == view.evidence@[i].kind && c.verification@[k].ok == view.evidence@[i].ok
                && c.verification@[k].revision == view.evidence@[i].revision
                && c.verification@[k].note == view.evidence@[i].note && (c.verification@[k].fresh
                <==> view.fresh(view.evidence@[i])),
{
    let newest = newest_from(view.evidence@, 0);
    assert(is_newest(view.evidence@, i));
    crate::laws::completion::lemma_newest(view.evidence@, 0);
    let k = choose|k: int| 0 <= k < newest.len() && newest[k] == i;
    assert(c.verification@[k].kind == view.evidence@[newest[k]].kind);
}

proof fn lemma_recorded(c: ContextCheckpoint, line: Seq<char>, part: Seq<char>)
    requires
        c.records(line),
        contains(line, part),
    ensures
        contains(c.rendered(), part),
{
    law_checkpoint_shows_what_is_recorded(c, line);
    lemma_shows(c.rendered(), line, part);
}

pub proof fn lemma_dashed(main: Seq<char>, lead: Seq<char>, extra: Option<String>)
    ensures
        contains(dashed(main, lead, extra), main),
        extra matches Some(value) ==> contains(dashed(main, lead, extra), value@),
{
    lemma_in_sum(main, main);
    match extra {
        Some(value) => {
            lemma_in_sum(main + lead, value@);
            lemma_in_sum(main, lead);
            lemma_shows(main + lead + value@, main + lead, main);
        },
        None => {},
    }
}

/// A fresh window is told the objective, the revision, and every decision with
/// its reason.
pub proof fn law_a_fresh_window_learns_the_decisions(c: ContextCheckpoint, i: int)
    ensures
        contains(c.rendered(), c.objective@),
        contains(c.rendered(), c.current_revision.0@),
        0 <= i < c.decisions@.len() ==> contains(c.rendered(), c.decisions@[i].decision@) && (
        c.decisions@[i].rationale matches Some(why) ==> contains(c.rendered(), why@)),
{
    lemma_heading(c);
    if 0 <= i < c.decisions@.len() {
        let d = c.decisions@[i];
        assert(lines_of(c.decisions@)[i] == d.line());
        lemma_dashed(d.decision@, " — "@, d.rationale);
        lemma_recorded(c, d.line(), d.decision@);
        match d.rationale {
            Some(why) => lemma_recorded(c, d.line(), why@),
            None => {},
        }
    }
}

proof fn lemma_heading(c: ContextCheckpoint)
    ensures
        contains(c.rendered(), c.objective@),
        contains(c.rendered(), c.current_revision.0@),
{
    let verified = match c.last_verified_revision {
        Some(revision) => revision.0@,
        None => "none"@,
    };
    let p0 = "[task state after context window "@ + decimal(c.window as nat) + "]\nobjective: "@;
    let p1 = p0 + c.objective@;
    let p2 = p1 + "\nstatus: "@;
    let p3 = p2 + c.status.name();
    let p4 = p3 + "\ncurrent revision: "@;
    let p5 = p4 + c.current_revision.0@;
    let p6 = p5 + "\nlast verified revision: "@;
    lemma_in_sum(p0, c.objective@);
    lemma_contains_in_sum(p1, "\nstatus: "@, c.objective@);
    lemma_contains_in_sum(p2, c.status.name(), c.objective@);
    lemma_contains_in_sum(p3, "\ncurrent revision: "@, c.objective@);
    lemma_contains_in_sum(p4, c.current_revision.0@, c.objective@);
    lemma_contains_in_sum(p5, "\nlast verified revision: "@, c.objective@);
    lemma_contains_in_sum(p6, verified, c.objective@);
    lemma_in_sum(p4, c.current_revision.0@);
    lemma_contains_in_sum(p5, "\nlast verified revision: "@, c.current_revision.0@);
    lemma_contains_in_sum(p6, verified, c.current_revision.0@);
    assert(c.heading() == p6 + verified);
    lemma_heading_shown(c, c.objective@);
    lemma_heading_shown(c, c.current_revision.0@);
}

proof fn lemma_heading_shown(c: ContextCheckpoint, pat: Seq<char>)
    requires
        contains(c.heading(), pat),
    ensures
        contains(c.rendered(), pat),
{
    let s1 = section_text("acceptance criteria"@, lines_of(c.acceptance_criteria@));
    let s2 = section_text("decisions"@, lines_of(c.decisions@));
    let s3 = section_text("completed"@, titles_of(c.completed@));
    let s4 = section_text("pending"@, lines_of(c.pending@));
    let s5 = section_text("blockers"@, lines_of(c.blockers@));
    let s6 = section_text("findings"@, lines_of(c.important_findings@));
    let s7 = section_text("failed approaches (do not retry)"@, lines_of(c.failed_approaches@));
    let s8 = section_text("changed paths"@, views(c.changed_paths@));
    let s9 = section_text("verification"@, lines_of(c.verification@));
    let s10 = section_text("workers"@, lines_of(c.active_agents@));
    let s11 = section_text("processes"@, lines_of(c.active_processes@));
    let s12 = section_text("next actions"@, views(c.next_actions@));
    let t0 = c.heading();
    lemma_contains_in_sum(t0, s1, pat);
    lemma_contains_in_sum(t0 + s1, s2, pat);
    lemma_contains_in_sum(t0 + s1 + s2, s3, pat);
    lemma_contains_in_sum(t0 + s1 + s2 + s3, s4, pat);
    lemma_contains_in_sum(t0 + s1 + s2 + s3 + s4, s5, pat);
    lemma_contains_in_sum(t0 + s1 + s2 + s3 + s4 + s5, s6, pat);
    lemma_contains_in_sum(t0 + s1 + s2 + s3 + s4 + s5 + s6, s7, pat);
    lemma_contains_in_sum(t0 + s1 + s2 + s3 + s4 + s5 + s6 + s7, s8, pat);
    lemma_contains_in_sum(t0 + s1 + s2 + s3 + s4 + s5 + s6 + s7 + s8, s9, pat);
    lemma_contains_in_sum(t0 + s1 + s2 + s3 + s4 + s5 + s6 + s7 + s8 + s9, s10, pat);
    lemma_contains_in_sum(t0 + s1 + s2 + s3 + s4 + s5 + s6 + s7 + s8 + s9 + s10, s11, pat);
    lemma_contains_in_sum(t0 + s1 + s2 + s3 + s4 + s5 + s6 + s7 + s8 + s9 + s10 + s11, s12, pat);
}

/// A fresh window is told what was done, what is left to do and with what detail,
/// what is in the way, and what comes next.
pub proof fn law_a_fresh_window_learns_the_work(c: ContextCheckpoint, i: int)
    ensures
        0 <= i < c.completed@.len() ==> contains(c.rendered(), c.completed@[i].title@),
        0 <= i < c.pending@.len() ==> contains(c.rendered(), c.pending@[i].title@) && (
        c.pending@[i].detail matches Some(detail) ==> contains(c.rendered(), detail@)),
        0 <= i < c.blockers@.len() ==> contains(c.rendered(), c.blockers@[i].summary@) && (
        c.blockers@[i].needs matches Some(needs) ==> contains(c.rendered(), needs@)),
        0 <= i < c.next_actions@.len() ==> contains(c.rendered(), c.next_actions@[i]@),
{
    if 0 <= i < c.completed@.len() {
        let t = c.completed@[i].title@;
        assert(titles_of(c.completed@)[i] == t);
        law_checkpoint_shows_what_is_recorded(c, t);
    }
    if 0 <= i < c.pending@.len() {
        let w = c.pending@[i];
        assert(lines_of(c.pending@)[i] == w.line());
        lemma_dashed(w.title@, " — "@, w.detail);
        lemma_recorded(c, w.line(), w.title@);
        match w.detail {
            Some(detail) => lemma_recorded(c, w.line(), detail@),
            None => {},
        }
    }
    if 0 <= i < c.blockers@.len() {
        let b = c.blockers@[i];
        assert(lines_of(c.blockers@)[i] == b.line());
        lemma_dashed(b.summary@, " — needs "@, b.needs);
        lemma_recorded(c, b.line(), b.summary@);
        match b.needs {
            Some(needs) => lemma_recorded(c, b.line(), needs@),
            None => {},
        }
    }
    if 0 <= i < c.next_actions@.len() {
        assert(views(c.next_actions@)[i] == c.next_actions@[i]@);
        law_checkpoint_shows_what_is_recorded(c, c.next_actions@[i]@);
    }
}

/// A fresh window is told every criterion and whether it is met, every finding
/// with its paths, and every approach that failed and why.
pub proof fn law_a_fresh_window_learns_the_findings(c: ContextCheckpoint, i: int, j: int)
    ensures
        0 <= i < c.acceptance_criteria@.len() ==> contains(
            c.rendered(),
            (if c.acceptance_criteria@[i].met {
                "[met] "@
            } else {
                "[unmet] "@
            }) + c.acceptance_criteria@[i].description@,
        ),
        0 <= i < c.important_findings@.len() ==> contains(
            c.rendered(),
            c.important_findings@[i].summary@,
        ),
        0 <= i < c.important_findings@.len() && 0 <= j < c.important_findings@[i].paths@.len()
            ==> contains(c.rendered(), c.important_findings@[i].paths@[j]@),
        0 <= i < c.failed_approaches@.len() ==> contains(
            c.rendered(),
            c.failed_approaches@[i].approach@,
        ) && contains(c.rendered(), c.failed_approaches@[i].reason@),
        0 <= i < c.changed_paths@.len() ==> contains(c.rendered(), c.changed_paths@[i]@),
{
    if 0 <= i < c.acceptance_criteria@.len() {
        let a = c.acceptance_criteria@[i];
        reveal_strlit("[");
        reveal_strlit("] ");
        reveal_strlit("met");
        reveal_strlit("unmet");
        reveal_strlit("[met] ");
        reveal_strlit("[unmet] ");
        assert(lines_of(c.acceptance_criteria@)[i] == a.line());
        assert(a.line() =~= (if a.met {
            "[met] "@
        } else {
            "[unmet] "@
        }) + a.description@);
        law_checkpoint_shows_what_is_recorded(c, a.line());
    }
    if 0 <= i < c.important_findings@.len() {
        let f = c.important_findings@[i];
        assert(lines_of(c.important_findings@)[i] == f.line());
        let paths = joined(views(f.paths@), ", "@);
        let lead = f.summary@ + " ("@;
        lemma_in_sum(f.summary@, " ("@);
        lemma_in_sum(lead, paths);
        lemma_in_sum(lead + paths, ")"@);
        lemma_shows(lead + paths, lead, f.summary@);
        lemma_shows(lead + paths + ")"@, lead + paths, f.summary@);
        lemma_recorded(c, f.line(), f.summary@);
        if 0 <= j < f.paths@.len() {
            assert(views(f.paths@)[j] == f.paths@[j]@);
            law_a_joined_text_shows_its_parts(views(f.paths@), ", "@, j);
            lemma_shows(lead + paths, paths, f.paths@[j]@);
            lemma_shows(lead + paths + ")"@, lead + paths, f.paths@[j]@);
            lemma_recorded(c, f.line(), f.paths@[j]@);
        }
    }
    if 0 <= i < c.failed_approaches@.len() {
        let f = c.failed_approaches@[i];
        assert(lines_of(c.failed_approaches@)[i] == f.line());
        lemma_in_sum(f.approach@, ": "@);
        lemma_in_sum(f.approach@ + ": "@, f.reason@);
        lemma_shows(f.line(), f.approach@ + ": "@, f.approach@);
        lemma_recorded(c, f.line(), f.approach@);
        lemma_recorded(c, f.line(), f.reason@);
    }
    if 0 <= i < c.changed_paths@.len() {
        assert(views(c.changed_paths@)[i] == c.changed_paths@[i]@);
        law_checkpoint_shows_what_is_recorded(c, c.changed_paths@[i]@);
    }
}

/// A fresh window is told of every verification whether it passed and whether it
/// still holds, of every worker its number, its state, its task and its result,
/// and of every process its number, its state and its command.
pub proof fn law_a_fresh_window_learns_what_runs(c: ContextCheckpoint, i: int)
    ensures
        0 <= i < c.verification@.len() ==> contains(
            c.rendered(),
            c.verification@[i].kind@ + (if c.verification@[i].ok {
                ": PASS @ "@
            } else {
                ": FAIL @ "@
            }) + c.verification@[i].revision.0@ + (if c.verification@[i].fresh {
                " — fresh"@
            } else {
                " — stale"@
            }),
        ),
        0 <= i < c.active_agents@.len() ==> contains(
            c.rendered(),
            "agent "@ + decimal(c.active_agents@[i].agent.0 as nat) + " ["@
                + c.active_agents@[i].state@ + "] "@ + c.active_agents@[i].task@,
        ) && (c.active_agents@[i].summary matches Some(summary) ==> contains(
            c.rendered(),
            summary@,
        )),
        0 <= i < c.active_processes@.len() ==> contains(
            c.rendered(),
            "process "@ + decimal(c.active_processes@[i].process.0 as nat) + " ["@
                + c.active_processes@[i].state@ + "] "@ + joined(
                views(c.active_processes@[i].argv@),
                " "@,
            ),
        ),
{
    if 0 <= i < c.verification@.len() {
        let v = c.verification@[i];
        reveal_strlit(": ");
        reveal_strlit("PASS");
        reveal_strlit("FAIL");
        reveal_strlit(" @ ");
        reveal_strlit(": PASS @ ");
        reveal_strlit(": FAIL @ ");
        reveal_strlit(" — ");
        reveal_strlit("fresh");
        reveal_strlit("stale");
        reveal_strlit(" — fresh");
        reveal_strlit(" — stale");
        let word = if v.ok {
            "PASS"@
        } else {
            "FAIL"@
        };
        let age = if v.fresh {
            "fresh"@
        } else {
            "stale"@
        };
        let main = v.kind@ + ": "@ + word + " @ "@ + v.revision.0@ + " — "@ + age;
        assert(main =~= v.kind@ + (if v.ok {
            ": PASS @ "@
        } else {
            ": FAIL @ "@
        }) + v.revision.0@ + (if v.fresh {
            " — fresh"@
        } else {
            " — stale"@
        }));
        assert(lines_of(c.verification@)[i] == v.line());
        lemma_dashed(main, " — "@, v.note);
        lemma_recorded(c, v.line(), main);
    }
    if 0 <= i < c.active_agents@.len() {
        let a = c.active_agents@[i];
        let main = "agent "@ + decimal(a.agent.0 as nat) + " ["@ + a.state@ + "] "@ + a.task@;
        assert(lines_of(c.active_agents@)[i] == a.line());
        lemma_dashed(main, " — "@, a.summary);
        lemma_recorded(c, a.line(), main);
        match a.summary {
            Some(summary) => lemma_recorded(c, a.line(), summary@),
            None => {},
        }
    }
    if 0 <= i < c.active_processes@.len() {
        let p = c.active_processes@[i];
        let main = "process "@ + decimal(p.process.0 as nat) + " ["@ + p.state@ + "] "@ + joined(
            views(p.argv@),
            " "@,
        );
        assert(lines_of(c.active_processes@)[i] == p.line());
        lemma_in_sum(main, main);
        match p.exit_code {
            Some(code) => {
                let shown = crate::text::signed_decimal(code as int);
                lemma_in_sum(main, " exit "@);
                lemma_in_sum(main + " exit "@, shown);
                lemma_shows(main + " exit "@ + shown, main + " exit "@, main);
            },
            None => {},
        }
        lemma_recorded(c, p.line(), main);
    }
}

} // verus!
