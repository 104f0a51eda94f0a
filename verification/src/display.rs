//! What the command line shows of events, tasks and sessions.
use vstd::prelude::*;
use vstd::string::StringExecFns;
use crate::agent::{AgentEvent, TaskOutcome};
use crate::cli::{summarize, summary_of};
use crate::goal::{titles, titles_of, AcceptanceCriterion, Blocker, Decision, Failure, Finding, Line, WorkItem};
use crate::identity::{ExecutionId, RevisionId, TaskId};
use crate::model::ModelEvent;
use crate::runtime::TaskReport;
use crate::session::{newest_from, positions, AgentRecord, EventRecord, EvidenceRecord, ProcessRecord, SessionEvent, TaskView};
use crate::text::{decimal, decimal_text, join, joined, opt_view, same, signed_decimal, signed_text, size_text, text, to_chars, views};

verus! {

/// Adds a line to lines.
pub fn push_line(out: &mut Vec<String>, line: String)
    ensures
        views(final(out)@) == views(old(out)@).push(line@),
{
    let ghost before = out@;
    let ghost shown = line@;
    out.push(line);
    proof {
        assert(views(out@) =~= views(before).push(shown));
    }
}

/// A number after a tag in brackets.
pub open spec fn tagged(tag: Seq<char>, n: nat) -> Seq<char> {
    "["@ + tag + decimal(n) + "] "@
}

fn tagged_text(tag: &str, n: u64) -> (r: String)
    ensures
        r@ == tagged(tag@, n as nat),
{
    let mut s = text("[");
    s.append(tag);
    s.append(decimal_text(n).as_str());
    s.append("] ");
    s
}

/// The line that an event of the model is shown as, where it is.
pub open spec fn model_line(event: ModelEvent) -> Option<Seq<char>> {
    match event {
        ModelEvent::RequestStarted { endpoint } => Some("[request] POST "@ + endpoint@),
        ModelEvent::ResponseCreated { id } => Some("[response] "@ + id@),
        ModelEvent::ReasoningSummaryDelta(delta) => Some("[reasoning] "@ + delta@),
        ModelEvent::ReasoningSummaryDone => None,
        ModelEvent::OutputTextDelta(_) => None,
        ModelEvent::FunctionCall { name } => Some("[provider tool] "@ + name@),
        ModelEvent::ResponseCompleted { id } => match id {
            Some(id) => Some("[response] completed "@ + id@),
            None => Some("[response] completed"@),
        },
    }
}

fn model_text(event: &ModelEvent) -> (r: Option<String>)
    ensures
        opt_view(r) == model_line(*event),
{
    match event {
        ModelEvent::RequestStarted { endpoint } => {
            let mut s = text("[request] POST ");
            s.append(endpoint.as_str());
            Some(s)
        },
        ModelEvent::ResponseCreated { id } => {
            let mut s = text("[response] ");
            s.append(id.as_str());
            Some(s)
        },
        ModelEvent::ReasoningSummaryDelta(delta) => {
            let mut s = text("[reasoning] ");
            s.append(delta.as_str());
            Some(s)
        },
        ModelEvent::ReasoningSummaryDone => None,
        ModelEvent::OutputTextDelta(_) => None,
        ModelEvent::FunctionCall { name } => {
            let mut s = text("[provider tool] ");
            s.append(name.as_str());
            Some(s)
        },
        ModelEvent::ResponseCompleted { id } => match id {
            Some(id) => {
                let mut s = text("[response] completed ");
                s.append(id.as_str());
                Some(s)
            },
            None => Some(text("[response] completed")),
        },
    }
}

/// The lines that reasons of a refusal are shown as.
pub open spec fn indented(items: Seq<Seq<char>>) -> Seq<Seq<char>> {
    items.map_values(|s: Seq<char>| "  "@ + s)
}

/// Passed or failed.
pub open spec fn verdict_word(ok: bool) -> Seq<char> {
    if ok {
        "pass"@
    } else {
        "fail"@
    }
}

/// The lines that an event is shown as.
pub open spec fn event_lines(event: AgentEvent) -> Seq<Seq<char>> {
    match event {
        AgentEvent::Model(e) => match model_line(e) {
            Some(line) => seq![line],
            None => Seq::empty(),
        },
        AgentEvent::PreludeLoaded { path, described } => seq![
            "[prelude] "@ + path@ + (if described {
                ""@
            } else {
                " (no //! tool descriptions; the model will not be told about it)"@
            }),
        ],
        AgentEvent::PreludeRejected { path, reason } => seq![
            "[prelude] not loaded: "@ + path@ + " — "@ + reason.text(),
        ],
        AgentEvent::ContextWindowStarted { window } => seq!["[window] "@ + decimal(window as nat)],
        AgentEvent::Compacted { window, tokens } => seq![
            "[compact] window "@ + decimal(window as nat) + " -> ~"@ + decimal(tokens as nat)
                + " tokens"@,
        ],
        AgentEvent::AssistantMessage { content } => seq!["[assistant] "@ + content@],
        AgentEvent::FinishProposed { accepted, objections } => if accepted {
            seq!["[finish] accepted"@]
        } else {
            seq!["[finish] refused"@] + indented(views(objections@))
        },
        AgentEvent::TaskCompleted { summary } => seq!["[task] completed: "@ + summary@],
        AgentEvent::GoalUpdated => seq!["[goal] updated"@],
        AgentEvent::AgentSpawned { agent, objective } => seq![
            tagged("worker "@, agent.0 as nat) + "spawned: "@ + objective@,
        ],
        AgentEvent::AgentSettled { agent, state } => seq![
            tagged("worker "@, agent.0 as nat) + state.name(),
        ],
        AgentEvent::ProcessSpawned { process, argv } => seq![
            tagged("process "@, process.0 as nat) + joined(views(argv@), " "@),
        ],
        AgentEvent::ProcessExited { process, exit_code } => match exit_code {
            Some(code) => seq![
                tagged("process "@, process.0 as nat) + "exited "@ + signed_decimal(code as int),
            ],
            None => seq![tagged("process "@, process.0 as nat) + "exited without a status"@],
        },
        AgentEvent::PtcStarted => seq!["[ptc] executing"@],
        AgentEvent::PtcHostCallStarted { call_id, name } => seq![
            tagged("ptc:"@, call_id as nat) + name@,
        ],
        AgentEvent::PtcHostCallCompleted { call_id, name, ok, duration_ms } => seq![
            tagged("ptc:"@, call_id as nat) + name@ + (if ok {
                ": ok ("@
            } else {
                ": failed ("@
            }) + decimal(duration_ms as nat) + " ms)"@,
        ],
        AgentEvent::EvidenceRecorded { kind, ok } => seq![
            "[verify] "@ + kind@ + ": "@ + verdict_word(ok),
        ],
        AgentEvent::SteeringQueued { content } => seq!["[steering] queued: "@ + content@],
        AgentEvent::SteeringApplied { content } => seq!["[steering] applied: "@ + content@],
        AgentEvent::RepeatedActionDetected { fingerprint } => seq![
            "[ptc] repeated action detected ("@ + fingerprint@ + ")"@,
        ],
        AgentEvent::ToolCompleted { outcome, tool_calls, duration_ms } => seq![
            "[ptc] "@ + outcome@ + "; "@ + decimal(tool_calls as nat) + " tool call(s); "@
                + decimal(duration_ms as nat) + " ms"@,
        ],
    }
}

pub(crate) fn one(line: String) -> (r: Vec<String>)
    ensures
        views(r@) == seq![line@],
{
    let mut out: Vec<String> = Vec::new();
    let ghost shown = line@;
    out.push(line);
    proof {
        assert(views(out@) =~= seq![shown]);
    }
    out
}

pub(crate) fn lead(first: &str, second: &str) -> (r: String)
    ensures
        r@ == first@ + second@,
{
    let mut s = text(first);
    s.append(second);
    s
}

fn refused_lines(objections: &Vec<String>) -> (r: Vec<String>)
    ensures
        views(r@) == seq!["[finish] refused"@] + indented(views(objections@)),
{
    let mut out = one(text("[finish] refused"));
    let ghost all = views(objections@);
    let ghost first = seq!["[finish] refused"@];
    let mut i: usize = 0;
    proof {
        assert(views(out@) =~= first + indented(all.take(0)));
    }
    while i < objections.len()
        invariant
            i <= objections.len(),
            all == views(objections@),
            views(out@) == first + indented(all.take(i as int)),
        decreases objections.len() - i,
    {
        push_line(&mut out, lead("  ", objections[i].as_str()));
        proof {
            assert(indented(all.take(i + 1)) =~= indented(all.take(i as int)).push(
                "  "@ + all[i as int],
            ));
            assert(views(out@) =~= first + indented(all.take(i + 1)));
        }
        i = i + 1;
    }
    proof {
        assert(all.take(i as int) =~= all);
    }
    out
}

/// The lines that an event is shown as.
pub fn print_event(event: &AgentEvent) -> (r: Vec<String>)
    ensures
        views(r@) == event_lines(*event),
{
    match event {
        AgentEvent::Model(e) => match model_text(e) {
            Some(line) => one(line),
            None => {
                let out: Vec<String> = Vec::new();
                proof {
                    assert(views(out@) =~= Seq::<Seq<char>>::empty());
                }
                out
            },
        },
        AgentEvent::PreludeLoaded { path, described } => {
            let mut s = lead("[prelude] ", path.as_str());
            if *described {
                s.append("");
            } else {
                s.append(" (no //! tool descriptions; the model will not be told about it)");
            }
            one(s)
        },
        AgentEvent::PreludeRejected { path, reason } => {
            let mut s = lead("[prelude] not loaded: ", path.as_str());
            s.append(" — ");
            s.append(reason.explain());
            one(s)
        },
        AgentEvent::ContextWindowStarted { window } => one(
            lead("[window] ", decimal_text(*window as u64).as_str()),
        ),
        AgentEvent::Compacted { window, tokens } => {
            let mut s = lead("[compact] window ", decimal_text(*window as u64).as_str());
            s.append(" -> ~");
            s.append(size_text(*tokens).as_str());
            s.append(" tokens");
            one(s)
        },
        AgentEvent::AssistantMessage { content } => one(lead("[assistant] ", content.as_str())),
        AgentEvent::FinishProposed { accepted, objections } => {
            if *accepted {
                one(text("[finish] accepted"))
            } else {
                refused_lines(objections)
            }
        },
        AgentEvent::TaskCompleted { summary } => one(
            lead("[task] completed: ", summary.as_str()),
        ),
        AgentEvent::GoalUpdated => one(text("[goal] updated")),
        AgentEvent::AgentSpawned { agent, objective } => {
            let mut s = tagged_text("worker ", agent.0);
            s.append("spawned: ");
            s.append(objective.as_str());
            one(s)
        },
        AgentEvent::AgentSettled { agent, state } => {
            let mut s = tagged_text("worker ", agent.0);
            s.append(state.label());
            one(s)
        },
        AgentEvent::ProcessSpawned { process, argv } => {
            let mut s = tagged_text("process ", process.0);
            s.append(join(argv, " ").as_str());
            one(s)
        },
        AgentEvent::ProcessExited { process, exit_code } => {
            let mut s = tagged_text("process ", process.0);
            match exit_code {
                Some(code) => {
                    s.append("exited ");
                    s.append(signed_text(*code).as_str());
                },
                None => {
                    s.append("exited without a status");
                },
            }
            one(s)
        },
        AgentEvent::PtcStarted => one(text("[ptc] executing")),
        AgentEvent::PtcHostCallStarted { call_id, name } => {
            let mut s = tagged_text("ptc:", *call_id);
            s.append(name.as_str());
            one(s)
        },
        AgentEvent::PtcHostCallCompleted { call_id, name, ok, duration_ms } => {
            let mut s = tagged_text("ptc:", *call_id);
            s.append(name.as_str());
            if *ok {
                s.append(": ok (");
            } else {
                s.append(": failed (");
            }
            s.append(decimal_text(*duration_ms).as_str());
            s.append(" ms)");
            one(s)
        },
        AgentEvent::EvidenceRecorded { kind, ok } => {
            let mut s = lead("[verify] ", kind.as_str());
            s.append(": ");
            if *ok {
                s.append("pass");
            } else {
                s.append("fail");
            }
            one(s)
        },
        AgentEvent::SteeringQueued { content } => one(
            lead("[steering] queued: ", content.as_str()),
        ),
        AgentEvent::SteeringApplied { content } => one(
            lead("[steering] applied: ", content.as_str()),
        ),
        AgentEvent::RepeatedActionDetected { fingerprint } => {
            let mut s = lead("[ptc] repeated action detected (", fingerprint.as_str());
            s.append(")");
            one(s)
        },
        AgentEvent::ToolCompleted { outcome, tool_calls, duration_ms } => {
            let mut s = lead("[ptc] ", outcome.as_str());
            s.append("; ");
            s.append(size_text(*tool_calls).as_str());
            s.append(" tool call(s); ");
            s.append(decimal_text(*duration_ms).as_str());
            s.append(" ms");
            one(s)
        },
    }
}

/// Shows events as they come. A streamed line of reasoning stays open until
/// something else is shown.
#[derive(Clone, Copy, Debug, PartialEq, Eq)]
pub struct EventPrinter {
    pub reasoning_open: bool,
}

/// What is written when an event is shown: a text without an end of line, and
/// then whole lines.
#[derive(Clone, Debug, PartialEq, Eq)]
pub struct Printed {
    pub streamed: String,
    pub lines: Vec<String>,
}

/// What closes a streamed line, where one is open.
pub open spec fn closing(open: bool) -> Seq<char> {
    if open {
        "\n"@
    } else {
        ""@
    }
}

impl EventPrinter {
    /// Nothing is open.
    pub fn new() -> (r: EventPrinter)
        ensures
            !r.reasoning_open,
    {
        EventPrinter { reasoning_open: false }
    }

    /// What is written when an event is shown.
    pub fn print(&mut self, event: &AgentEvent) -> (r: Printed)
        ensures
            match *event {
                AgentEvent::Model(ModelEvent::ReasoningSummaryDelta(delta)) => {
                    &&& final(self).reasoning_open
                    &&& r.lines@.len() == 0
                    &&& r.streamed@ == if old(self).reasoning_open {
                        delta@
                    } else {
                        "[reasoning] "@ + delta@
                    }
                },
                AgentEvent::Model(ModelEvent::ReasoningSummaryDone) => {
                    &&& !final(self).reasoning_open
                    &&& r.lines@.len() == 0
                    &&& r.streamed@ == closing(old(self).reasoning_open)
                },
                _ => {
                    &&& !final(self).reasoning_open
                    &&& r.streamed@ == closing(old(self).reasoning_open)
                    &&& views(r.lines@) == event_lines(*event)
                },
            },
    {
        match event {
            AgentEvent::Model(ModelEvent::ReasoningSummaryDelta(delta)) => {
                let streamed = if self.reasoning_open {
                    delta.clone()
                } else {
                    lead("[reasoning] ", delta.as_str())
                };
                self.reasoning_open = true;
                Printed { streamed, lines: Vec::new() }
            },
            AgentEvent::Model(ModelEvent::ReasoningSummaryDone) => {
                let streamed = self.close_reasoning();
                Printed { streamed, lines: Vec::new() }
            },
            _ => {
                let streamed = self.close_reasoning();
                Printed { streamed, lines: print_event(event) }
            },
        }
    }

    fn close_reasoning(&mut self) -> (r: String)
        ensures
            !final(self).reasoning_open,
            r@ == closing(old(self).reasoning_open),
    {
        let streamed = if self.reasoning_open {
            text("\n")
        } else {
            text("")
        };
        self.reasoning_open = false;
        streamed
    }
}

/// A thing that is shown as one line of a section.
pub trait Shown {
    spec fn shown(&self) -> Seq<char>;

    fn shown_text(&self) -> (r: String)
        ensures
            r@ == self.shown(),
    ;
}

/// The lines of things.
pub open spec fn shown_lines<T: Shown>(items: Seq<T>) -> Seq<Seq<char>> {
    items.map_values(|item: T| item.shown())
}

/// A section: its title, and each of its lines indented; nothing where there are
/// no lines.
pub open spec fn section_lines(title: Seq<char>, items: Seq<Seq<char>>) -> Seq<Seq<char>> {
    if items.len() == 0 {
        Seq::empty()
    } else {
        seq![title + ":"@] + indented(items)
    }
}

/// Adds a section to lines.
pub fn print_section<T: Shown>(out: &mut Vec<String>, title: &str, items: &Vec<T>)
    ensures
        views(final(out)@) == views(old(out)@) + section_lines(title@, shown_lines(items@)),
{
    let ghost was = views(out@);
    let ghost all = shown_lines(items@);
    if items.len() == 0 {
        proof {
            assert(views(out@) =~= was + Seq::<Seq<char>>::empty());
        }
        return ;
    }
    push_line(out, lead(title, ":"));
    let ghost first = was.push(title@ + ":"@);
    let mut i: usize = 0;
    proof {
        assert(views(out@) =~= first + indented(all.take(0)));
    }
    while i < items.len()
        invariant
            i <= items.len(),
            all == shown_lines(items@),
            views(out@) == first + indented(all.take(i as int)),
        decreases items.len() - i,
    {
        let shown = items[i].shown_text();
        push_line(out, lead("  ", shown.as_str()));
        proof {
            assert(indented(all.take(i + 1)) =~= indented(all.take(i as int)).push(
                "  "@ + all[i as int],
            ));
            assert(views(out@) =~= first + indented(all.take(i + 1)));
        }
        i = i + 1;
    }
    proof {
        assert(all.take(i as int) =~= all);
        assert(views(out@) =~= was + section_lines(title@, all));
    }
}

impl Shown for String {
    open spec fn shown(&self) -> Seq<char> {
        self@
    }

    fn shown_text(&self) -> (r: String) {
        self.clone()
    }
}

impl Shown for AcceptanceCriterion {
    open spec fn shown(&self) -> Seq<char> {
        let main = (if self.met {
            "[x] "@
        } else {
            "[ ] "@
        }) + self.description@;
        match self.evidence_kind {
            Some(kind) => main + " (evidence: "@ + kind@ + ")"@,
            None => main,
        }
    }

    fn shown_text(&self) -> (r: String) {
        let mut s = if self.met {
            text("[x] ")
        } else {
            text("[ ] ")
        };
        s.append(self.description.as_str());
        match &self.evidence_kind {
            Some(kind) => {
                s.append(" (evidence: ");
                s.append(kind.as_str());
                s.append(")");
            },
            None => {},
        }
        s
    }
}

impl Shown for WorkItem {
    open spec fn shown(&self) -> Seq<char> {
        self.line()
    }

    fn shown_text(&self) -> (r: String) {
        self.line_text()
    }
}

impl Shown for Blocker {
    open spec fn shown(&self) -> Seq<char> {
        match self.needs {
            Some(needs) => self.summary@ + " (needs: "@ + needs@ + ")"@,
            None => self.summary@,
        }
    }

    fn shown_text(&self) -> (r: String) {
        let mut s = self.summary.clone();
        match &self.needs {
            Some(needs) => {
                s.append(" (needs: ");
                s.append(needs.as_str());
                s.append(")");
            },
            None => {},
        }
        s
    }
}

impl Shown for Decision {
    open spec fn shown(&self) -> Seq<char> {
        self.line()
    }

    fn shown_text(&self) -> (r: String) {
        self.line_text()
    }
}

impl Shown for Finding {
    open spec fn shown(&self) -> Seq<char> {
        if self.paths@.len() == 0 {
            self.summary@
        } else {
            self.summary@ + " ["@ + joined(views(self.paths@), ", "@) + "]"@
        }
    }

    fn shown_text(&self) -> (r: String) {
        let mut s = self.summary.clone();
        if !self.paths.is_empty() {
            s.append(" [");
            s.append(join(&self.paths, ", ").as_str());
            s.append("]");
        }
        s
    }
}

impl Shown for Failure {
    open spec fn shown(&self) -> Seq<char> {
        self.approach@ + " — "@ + self.reason@
    }

    fn shown_text(&self) -> (r: String) {
        let mut s = self.approach.clone();
        s.append(" — ");
        s.append(self.reason.as_str());
        s
    }
}

impl Shown for AgentRecord {
    open spec fn shown(&self) -> Seq<char> {
        decimal(self.agent.0 as nat) + " "@ + self.state.name() + " — "@ + summary_of(
            self.objective@,
            80,
        )
    }

    fn shown_text(&self) -> (r: String) {
        let mut s = decimal_text(self.agent.0);
        s.append(" ");
        s.append(self.state.label());
        s.append(" — ");
        s.append(summarize(self.objective.as_str(), 80).as_str());
        s
    }
}

impl Shown for ProcessRecord {
    open spec fn shown(&self) -> Seq<char> {
        decimal(self.process.0 as nat) + " "@ + self.state@ + (match self.exit_code {
            Some(code) => " exit "@ + signed_decimal(code as int),
            None => ""@,
        }) + " — "@ + joined(views(self.argv@), " "@)
    }

    fn shown_text(&self) -> (r: String) {
        let mut s = decimal_text(self.process.0);
        s.append(" ");
        s.append(self.state.as_str());
        let exit = match self.exit_code {
            Some(code) => lead(" exit ", signed_text(code).as_str()),
            None => text(""),
        };
        s.append(exit.as_str());
        s.append(" — ");
        s.append(join(&self.argv, " ").as_str());
        s
    }
}

impl Shown for ExecutionId {
    open spec fn shown(&self) -> Seq<char> {
        decimal(self.0 as nat)
    }

    fn shown_text(&self) -> (r: String) {
        decimal_text(self.0)
    }
}

impl Shown for u64 {
    open spec fn shown(&self) -> Seq<char> {
        decimal(*self as nat)
    }

    fn shown_text(&self) -> (r: String) {
        decimal_text(*self)
    }
}

/// The line that a verification is shown as.
pub open spec fn evidence_shown(view: TaskView, record: EvidenceRecord) -> Seq<char> {
    let main = record.kind@ + ": "@ + verdict_word(record.ok) + (if view.fresh(record) {
        " (fresh)"@
    } else {
        " (stale)"@
    });
    match record.note {
        Some(note) => main + " — "@ + note@,
        None => main,
    }
}

fn evidence_text(view: &TaskView, record: &EvidenceRecord) -> (r: String)
    ensures
        r@ == evidence_shown(*view, *record),
{
    let mut s = record.kind.clone();
    s.append(": ");
    if record.ok {
        s.append("pass");
    } else {
        s.append("fail");
    }
    if view.evidence_is_fresh(record) {
        s.append(" (fresh)");
    } else {
        s.append(" (stale)");
    }
    match &record.note {
        Some(note) => {
            s.append(" — ");
            s.append(note.as_str());
        },
        None => {},
    }
    s
}

/// The lines that the newest verification of each kind is shown as.
pub open spec fn evidence_lines(view: TaskView) -> Seq<Seq<char>> {
    newest_from(view.evidence@, 0).map_values(
        |i: int| evidence_shown(view, view.evidence@[i]),
    )
}

fn evidence_texts(view: &TaskView) -> (r: Vec<String>)
    ensures
        views(r@) == evidence_lines(*view),
{
    let newest = view.latest_evidence();
    let ghost places = newest_from(view.evidence@, 0);
    let mut out: Vec<String> = Vec::new();
    let mut i: usize = 0;
    proof {
        assert(places.len() == newest@.len());
    }
    while i < newest.len()
        invariant
            i <= newest.len(),
            positions(newest@) == places,
            forall|k: int| 0 <= k < newest.len() ==> (#[trigger] newest@[k]) < view.evidence@.len(),
            out@.len() == i,
            forall|k: int|
                0 <= k < i ==> (#[trigger] out@[k])@ == evidence_shown(
                    *view,
                    view.evidence@[places[k]],
                ),
        decreases newest.len() - i,
    {
        proof {
            assert(places[i as int] == newest@[i as int] as int);
        }
        out.push(evidence_text(view, &view.evidence[newest[i]]));
        i = i + 1;
    }
    proof {
        assert(views(out@) =~= evidence_lines(*view));
    }
    out
}

/// Texts, each cut to a width.
pub open spec fn summaries_of(items: Seq<Seq<char>>, max: nat) -> Seq<Seq<char>> {
    items.map_values(|s: Seq<char>| summary_of(s, max))
}

fn summary_texts(items: &Vec<String>, max: usize) -> (r: Vec<String>)
    ensures
        views(r@) == summaries_of(views(items@), max as nat),
{
    let mut out: Vec<String> = Vec::new();
    let mut i: usize = 0;
    while i < items.len()
        invariant
            i <= items.len(),
            out@.len() == i,
            forall|k: int|
                0 <= k < i ==> (#[trigger] out@[k])@ == summary_of(items@[k]@, max as nat),
        decreases items.len() - i,
    {
        out.push(summarize(items[i].as_str(), max));
        i = i + 1;
    }
    proof {
        assert(views(out@) =~= summaries_of(views(items@), max as nat));
    }
    out
}

/// The revision that was verified last.
pub open spec fn verified_text(revision: Option<RevisionId>) -> Seq<char> {
    match revision {
        Some(r) => r.0@,
        None => "none"@,
    }
}

/// The first lines of what is shown of a task.
pub open spec fn task_heading(view: TaskView) -> Seq<Seq<char>> {
    seq![
        "task "@ + decimal(view.task_id.0 as nat),
        "agent: "@ + decimal(view.agent.0 as nat),
        "status: "@ + view.goal.status.name(),
        "objective: "@ + view.goal.objective@,
        "window: "@ + decimal(view.window as nat) + " ("@ + decimal(view.turns_in_window as nat)
            + " turn(s) so far)"@,
        "revision: "@ + view.goal.current_revision.0@,
        "verified revision: "@ + verified_text(view.goal.last_verified_revision),
    ] + (if view.cancel_requested {
        seq!["cancel: requested"@]
    } else {
        Seq::empty()
    }) + (match view.checkpoint {
        Some(c) => seq!["checkpoint: carried over from window "@ + decimal(c.window as nat)],
        None => Seq::empty(),
    }) + (match view.latest_user_message {
        Some(m) => seq!["last message: "@ + summary_of(m@, 200)],
        None => Seq::empty(),
    })
}

fn print_heading(view: &TaskView, out: &mut Vec<String>)
    ensures
        views(final(out)@) == views(old(out)@) + task_heading(*view),
{
    let ghost was = views(out@);
    push_line(out, lead("task ", decimal_text(view.task_id.0).as_str()));
    push_line(out, lead("agent: ", decimal_text(view.agent.0).as_str()));
    push_line(out, lead("status: ", view.goal.status.label()));
    push_line(out, lead("objective: ", view.goal.objective.as_str()));
    let mut window = lead("window: ", decimal_text(view.window as u64).as_str());
    window.append(" (");
    window.append(size_text(view.turns_in_window).as_str());
    window.append(" turn(s) so far)");
    push_line(out, window);
    push_line(out, lead("revision: ", view.goal.current_revision.0.as_str()));
    let verified = match &view.goal.last_verified_revision {
        Some(r) => r.0.clone(),
        None => text("none"),
    };
    push_line(out, lead("verified revision: ", verified.as_str()));
    if view.cancel_requested {
        push_line(out, text("cancel: requested"));
    }
    match &view.checkpoint {
        Some(c) => push_line(
            out,
            lead(
                "checkpoint: carried over from window ",
                decimal_text(c.window as u64).as_str(),
            ),
        ),
        None => {},
    }
    match &view.latest_user_message {
        Some(m) => push_line(out, lead("last message: ", summarize(m.as_str(), 200).as_str())),
        None => {},
    }
    proof {
        assert(views(out@) =~= was + task_heading(*view));
    }
}

/// The lines that a task is shown as.
pub open spec fn task_lines(view: TaskView) -> Seq<Seq<char>> {
    task_heading(view) + section_lines(
        "acceptance criteria"@,
        shown_lines(view.goal.acceptance_criteria@),
    ) + section_lines("completed"@, titles_of(view.goal.completed_work@)) + section_lines(
        "pending"@,
        shown_lines(view.goal.pending_work@),
    ) + section_lines("blockers"@, shown_lines(view.goal.blockers@)) + section_lines(
        "decisions"@,
        shown_lines(view.goal.decisions@),
    ) + section_lines("findings"@, shown_lines(view.goal.findings@)) + section_lines(
        "failed approaches"@,
        shown_lines(view.goal.failed_approaches@),
    ) + section_lines("next actions"@, views(view.goal.next_actions@)) + section_lines(
        "changed paths"@,
        views(view.changed_paths@),
    ) + section_lines("pending steering"@, summaries_of(views(view.pending_steering@), 120))
        + section_lines("verification"@, evidence_lines(view)) + section_lines(
        "workers"@,
        shown_lines(view.agents@),
    ) + section_lines("processes"@, shown_lines(view.processes@)) + section_lines(
        "outcome-unknown executions"@,
        shown_lines(view.outcome_unknown_executions@),
    ) + section_lines(
        "unresolved recovery workspaces"@,
        shown_lines(view.unresolved_recovery_workspaces@),
    )
}

proof fn lemma_shown_strings(items: Seq<String>)
    ensures
        shown_lines(items) == views(items),
{
    assert(shown_lines(items) =~= views(items));
}

/// The lines that a task is shown as.
pub fn print_task_view(view: &TaskView) -> (r: Vec<String>)
    ensures
        views(r@) == task_lines(*view),
{
    let mut out: Vec<String> = Vec::new();
    proof {
        assert(views(out@) =~= Seq::<Seq<char>>::empty());
        assert(views(out@) + task_heading(*view) =~= task_heading(*view));
    }
    print_heading(view, &mut out);
    print_section(&mut out, "acceptance criteria", &view.goal.acceptance_criteria);
    let completed = titles(&view.goal.completed_work);
    proof {
        lemma_shown_strings(completed@);
        lemma_shown_strings(view.goal.next_actions@);
        lemma_shown_strings(view.changed_paths@);
    }
    print_section(&mut out, "completed", &completed);
    print_section(&mut out, "pending", &view.goal.pending_work);
    print_section(&mut out, "blockers", &view.goal.blockers);
    print_section(&mut out, "decisions", &view.goal.decisions);
    print_section(&mut out, "findings", &view.goal.findings);
    print_section(&mut out, "failed approaches", &view.goal.failed_approaches);
    print_section(&mut out, "next actions", &view.goal.next_actions);
    print_section(&mut out, "changed paths", &view.changed_paths);
    let steering = summary_texts(&view.pending_steering, 120);
    proof {
        lemma_shown_strings(steering@);
    }
    print_section(&mut out, "pending steering", &steering);
    let verification = evidence_texts(view);
    proof {
        lemma_shown_strings(verification@);
    }
    print_section(&mut out, "verification", &verification);
    print_section(&mut out, "workers", &view.agents);
    print_section(&mut out, "processes", &view.processes);
    print_section(&mut out, "outcome-unknown executions", &view.outcome_unknown_executions);
    print_section(
        &mut out,
        "unresolved recovery workspaces",
        &view.unresolved_recovery_workspaces,
    );
    out
}

/// So many spaces.
pub open spec fn spaces(n: nat) -> Seq<char> {
    Seq::new(n, |i: int| ' ')
}

/// A text set to the right of a column.
pub open spec fn right(s: Seq<char>, width: nat) -> Seq<char> {
    if s.len() >= width {
        s
    } else {
        spaces((width - s.len()) as nat) + s
    }
}

/// A text set to the left of a column.
pub open spec fn left(s: Seq<char>, width: nat) -> Seq<char> {
    if s.len() >= width {
        s
    } else {
        s + spaces((width - s.len()) as nat)
    }
}

fn space_text(n: usize) -> (r: String)
    ensures
        r@ == spaces(n as nat),
{
    let mut s = String::new();
    let mut i: usize = 0;
    proof {
        assert(s@ =~= spaces(0));
    }
    while i < n
        invariant
            i <= n,
            s@ == spaces(i as nat),
        decreases n - i,
    {
        s.push(' ');
        proof {
            assert(s@ =~= spaces((i + 1) as nat));
        }
        i = i + 1;
    }
    s
}

pub(crate) fn right_text(s: &str, width: usize) -> (r: String)
    ensures
        r@ == right(s@, width as nat),
{
    let n: usize = to_chars(s).len();
    if n >= width {
        text(s)
    } else {
        let mut out = space_text(width - n);
        out.append(s);
        out
    }
}

pub(crate) fn left_text(s: &str, width: usize) -> (r: String)
    ensures
        r@ == left(s@, width as nat),
{
    let n: usize = to_chars(s).len();
    let mut out = text(s);
    if n < width {
        out.append(space_text(width - n).as_str());
    }
    out
}

/// How many workers of a report have not settled.
pub open spec fn live_workers(report: TaskReport) -> nat {
    count_live(report, report.workers@.len())
}

/// How many of the first workers of a report have not settled.
pub open spec fn count_live(report: TaskReport, n: nat) -> nat
    decreases n,
{
    if n == 0 {
        0
    } else {
        count_live(report, (n - 1) as nat) + if report.workers@[n - 1].1.terminal() {
            0nat
        } else {
            1nat
        }
    }
}

/// How many of the first processes of a report run.
pub open spec fn count_running(report: TaskReport, n: nat) -> nat
    decreases n,
{
    if n == 0 {
        0
    } else {
        count_running(report, (n - 1) as nat) + if report.processes@[n - 1].1@ == "running"@ {
            1nat
        } else {
            0nat
        }
    }
}

/// A note on a count, where there is something to count.
pub open spec fn counted(n: nat, what: Seq<char>) -> Seq<Seq<char>> {
    if n > 0 {
        seq![decimal(n) + what]
    } else {
        Seq::empty()
    }
}

/// The notes on a task.
pub open spec fn notes_of(report: TaskReport) -> Seq<Seq<char>> {
    (if report.cancel_requested {
        seq!["cancel requested"@]
    } else {
        Seq::empty()
    }) + counted(report.pending_steering@.len(), " steering queued"@) + counted(
        live_workers(report),
        " live worker(s)"@,
    ) + counted(
        count_running(report, report.processes@.len()),
        " running process(es)"@,
    ) + counted(report.pending@.len(), " pending"@) + counted(
        report.blockers@.len(),
        " blocker(s)"@,
    )
}

/// The lines that a task is listed as.
pub open spec fn report_lines(report: TaskReport) -> Seq<Seq<char>> {
    let first = right(decimal(report.task_id.0 as nat), 4) + "  "@ + left(report.status.name(), 14)
        + "  "@ + right(decimal(report.window as nat), 6) + "  "@ + summary_of(
        report.objective@,
        64,
    );
    if notes_of(report).len() == 0 {
        seq![first]
    } else {
        seq![first, "      "@ + joined(notes_of(report), ", "@)]
    }
}

fn push_count(out: &mut Vec<String>, n: usize, what: &str)
    ensures
        views(final(out)@) == views(old(out)@) + counted(n as nat, what@),
{
    let ghost was = views(out@);
    if n > 0 {
        push_line(out, lead(size_text(n).as_str(), what));
        proof {
            assert(views(out@) =~= was + counted(n as nat, what@));
        }
    } else {
        proof {
            assert(views(out@) =~= was + Seq::<Seq<char>>::empty());
        }
    }
}

fn report_notes(report: &TaskReport) -> (r: Vec<String>)
    ensures
        views(r@) == notes_of(*report),
{
    let mut workers: usize = 0;
    let mut i: usize = 0;
    while i < report.workers.len()
        invariant
            i <= report.workers.len(),
            workers <= i,
            workers == count_live(*report, i as nat),
        decreases report.workers.len() - i,
    {
        if !report.workers[i].1.is_terminal() {
            workers = workers + 1;
        }
        i = i + 1;
    }
    let mut processes: usize = 0;
    let mut k: usize = 0;
    while k < report.processes.len()
        invariant
            k <= report.processes.len(),
            processes <= k,
            processes == count_running(*report, k as nat),
        decreases report.processes.len() - k,
    {
        if same(report.processes[k].1.as_str(), "running") {
            processes = processes + 1;
        }
        k = k + 1;
    }
    let mut out: Vec<String> = Vec::new();
    if report.cancel_requested {
        push_line(&mut out, text("cancel requested"));
    }
    proof {
        assert(views(out@) =~= (if report.cancel_requested {
            seq!["cancel requested"@]
        } else {
            Seq::empty()
        }));
    }
    push_count(&mut out, report.pending_steering.len(), " steering queued");
    push_count(&mut out, workers, " live worker(s)");
    push_count(&mut out, processes, " running process(es)");
    push_count(&mut out, report.pending.len(), " pending");
    push_count(&mut out, report.blockers.len(), " blocker(s)");
    out
}

/// The lines that a task is listed as.
pub fn print_task_report(report: &TaskReport) -> (r: Vec<String>)
    ensures
        views(r@) == report_lines(*report),
{
    let mut first = right_text(decimal_text(report.task_id.0).as_str(), 4);
    first.append("  ");
    first.append(left_text(report.status.label(), 14).as_str());
    first.append("  ");
    first.append(right_text(decimal_text(report.window as u64).as_str(), 6).as_str());
    first.append("  ");
    first.append(summarize(report.objective.as_str(), 64).as_str());
    let mut out = one(first);
    let notes = report_notes(report);
    proof {
        assert(views(notes@).len() == notes@.len());
    }
    if notes.len() > 0 {
        push_line(&mut out, lead("      ", join(&notes, ", ").as_str()));
    }
    proof {
        assert(views(out@) =~= report_lines(*report));
    }
    out
}

/// What is told of a run that ended. A parked task and a completed one are
/// different facts and never share wording.
pub fn report_outcome(outcome: &TaskOutcome) -> (r: (&'static str, String))
    ensures
        r.0@ == if outcome is Completed {
            "[task] complete"@
        } else {
            "[task] parked — waiting for you; reply, or run `mh resume`"@
        },
        r.1@ == outcome.text(),
{
    let told = if outcome.is_complete() {
        "[task] complete"
    } else {
        "[task] parked — waiting for you; reply, or run `mh resume`"
    };
    (told, text(outcome.message()))
}

/// What is known of a session.
#[derive(Clone, Debug, PartialEq, Eq)]
pub struct SessionSummary {
    pub id: String,
    pub active_task: Option<TaskId>,
    pub current_revision: RevisionId,
    pub tasks: usize,
}

/// The newest answer of the model in the journal.
pub open spec fn newest_answer(events: Seq<EventRecord>) -> Option<Seq<char>>
    decreases events.len(),
{
    if events.len() == 0 {
        None
    } else {
        match events.last().event {
            SessionEvent::AssistantMessage { content, .. } => Some(content@),
            _ => newest_answer(events.drop_last()),
        }
    }
}

fn find_answer(events: &Vec<EventRecord>) -> (r: Option<String>)
    ensures
        opt_view(r) == newest_answer(events@),
{
    let ghost all = events@;
    let mut i: usize = events.len();
    proof {
        assert(all.take(i as int) =~= all);
    }
    while i > 0
        invariant
            i <= all.len(),
            all == events@,
            newest_answer(all.take(i as int)) == newest_answer(all),
        decreases i,
    {
        proof {
            assert(all.take(i as int).drop_last() =~= all.take(i - 1));
            assert(all.take(i as int).last() == all[i - 1]);
        }
        match &events[i - 1].event {
            SessionEvent::AssistantMessage { content, .. } => {
                return Some(content.clone());
            },
            _ => {},
        }
        i = i - 1;
    }
    None
}

/// The lines that a session is shown as.
pub open spec fn session_lines(session: SessionSummary, events: Seq<EventRecord>) -> Seq<Seq<char>> {
    seq![
        "id: "@ + session.id@,
        "active task: "@ + (match session.active_task {
            Some(task) => decimal(task.0 as nat),
            None => "none"@,
        }),
        "current revision: "@ + session.current_revision.0@,
        "events: "@ + decimal(events.len()),
        "tasks: "@ + decimal(session.tasks as nat),
    ] + (match newest_answer(events) {
        Some(answer) => seq!["last answer: "@ + answer],
        None => Seq::empty(),
    })
}

/// The lines that a session is shown as.
pub fn print_session(session: &SessionSummary, events: &Vec<EventRecord>) -> (r: Vec<String>)
    ensures
        views(r@) == session_lines(*session, events@),
{
    let mut out: Vec<String> = Vec::new();
    push_line(&mut out, lead("id: ", session.id.as_str()));
    let active = match session.active_task {
        Some(task) => decimal_text(task.0),
        None => text("none"),
    };
    push_line(&mut out, lead("active task: ", active.as_str()));
    push_line(&mut out, lead("current revision: ", session.current_revision.0.as_str()));
    push_line(&mut out, lead("events: ", size_text(events.len()).as_str()));
    push_line(&mut out, lead("tasks: ", size_text(session.tasks).as_str()));
    match find_answer(events) {
        Some(answer) => push_line(&mut out, lead("last answer: ", answer.as_str())),
        None => {},
    }
    proof {
        assert(views(out@) =~= session_lines(*session, events@));
    }
    out
}

} // verus!
