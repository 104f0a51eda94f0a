//! What a program and the model learn from a verdict.
use vstd::prelude::*;
use crate::goal::{id_numbers, objections_json, reason_lines, FinishObjection, FinishVerdict};
use crate::identity::Numbered;
use crate::json::{checkpoint_json, error_json, escaped, escaped_char, list_json, quoted, texts_json};
use crate::laws::texts::{law_a_joined_text_shows_its_parts, lemma_in_sum, lemma_shows};
use crate::text::{contains, decimal, joined, views};

verus! {

proof fn lemma_middle(a: Seq<char>, b: Seq<char>, c: Seq<char>, part: Seq<char>)
    requires
        contains(b, part),
    ensures
        contains(a + b + c, part),
{
    lemma_in_sum(a, b);
    lemma_in_sum(a + b, c);
    lemma_shows(a + b, b, part);
    lemma_shows(a + b + c, a + b, part);
}

proof fn lemma_end(a: Seq<char>, b: Seq<char>, part: Seq<char>)
    requires
        contains(b, part),
    ensures
        contains(a + b, part),
{
    lemma_in_sum(a, b);
    lemma_shows(a + b, b, part);
}

proof fn lemma_ids<T: Numbered>(ids: Seq<T>, i: int)
    requires
        0 <= i < ids.len(),
    ensures
        contains(joined(id_numbers(ids), ", "@), decimal(ids[i].number() as nat)),
        contains(list_json(id_numbers(ids)), decimal(ids[i].number() as nat)),
{
    let parts = id_numbers(ids);
    assert(parts[i] == decimal(ids[i].number() as nat));
    law_a_joined_text_shows_its_parts(parts, ", "@, i);
    law_a_joined_text_shows_its_parts(parts, ","@, i);
    lemma_middle("["@, joined(parts, ","@), "]"@, parts[i]);
}

proof fn lemma_texts(texts: Seq<String>, sep: Seq<char>, i: int)
    requires
        0 <= i < texts.len(),
    ensures
        contains(joined(views(texts), sep), texts[i]@),
        contains(texts_json(views(texts)), quoted(texts[i]@)),
{
    let parts = views(texts);
    assert(parts[i] == texts[i]@);
    law_a_joined_text_shows_its_parts(parts, sep, i);
    let quotes = parts.map_values(|s: Seq<char>| quoted(s));
    assert(quotes[i] == quoted(texts[i]@));
    law_a_joined_text_shows_its_parts(quotes, ","@, i);
    lemma_middle("["@, joined(quotes, ","@), "]"@, quoted(texts[i]@));
}

/// An objection says what it is about: every worker, process, execution and
/// workspace by its number, and every kind, item, criterion and path by its name.
/// So does the value that the program gets of it.
pub proof fn law_an_objection_says_what_it_is_about(o: FinishObjection, i: int)
    ensures
        o matches FinishObjection::UnresolvedAgents { agents } ==> (0 <= i < agents@.len() ==> {
            &&& contains(o.explanation(), decimal(agents@[i].0 as nat))
            &&& contains(o.json(), decimal(agents@[i].0 as nat))
        }),
        o matches FinishObjection::RunningProcesses { processes } ==> (0 <= i < processes@.len()
            ==> {
            &&& contains(o.explanation(), decimal(processes@[i].0 as nat))
            &&& contains(o.json(), decimal(processes@[i].0 as nat))
        }),
        o matches FinishObjection::OutcomeUnknownExecutions { executions } ==> (0 <= i
            < executions@.len() ==> {
            &&& contains(o.explanation(), decimal(executions@[i].0 as nat))
            &&& contains(o.json(), decimal(executions@[i].0 as nat))
        }),
        o matches FinishObjection::UnintegratedWorkspaces { workspaces } ==> (0 <= i
            < workspaces@.len() ==> {
            &&& contains(o.explanation(), decimal(workspaces@[i] as nat))
            &&& contains(o.json(), decimal(workspaces@[i] as nat))
        }),
        o matches FinishObjection::FailedVerification { kinds } ==> (0 <= i < kinds@.len() ==> {
            &&& contains(o.explanation(), kinds@[i]@)
            &&& contains(o.json(), quoted(kinds@[i]@))
        }),
        o matches FinishObjection::PendingWork { items } ==> (0 <= i < items@.len() ==> {
            &&& contains(o.explanation(), items@[i]@)
            &&& contains(o.json(), quoted(items@[i]@))
        }),
        o matches FinishObjection::UnmetCriteria { criteria } ==> (0 <= i < criteria@.len() ==> {
            &&& contains(o.explanation(), criteria@[i]@)
            &&& contains(o.json(), quoted(criteria@[i]@))
        }),
        o matches FinishObjection::OpenConflict { paths } ==> (0 <= i < paths@.len() ==> {
            &&& contains(o.explanation(), paths@[i]@)
            &&& contains(o.json(), quoted(paths@[i]@))
        }),
{
    match o {
        FinishObjection::UnresolvedAgents { agents } => {
            if 0 <= i < agents@.len() {
                lemma_ids(agents@, i);
                lemma_middle(
                    decimal(agents@.len()) + " delegated worker(s) are still unresolved: "@,
                    joined(id_numbers(agents@), ", "@),
                    ". Join or cancel them first."@,
                    decimal(agents@[i].0 as nat),
                );
                lemma_middle(
                    "{\"unresolvedAgents\":{\"agents\":"@,
                    list_json(id_numbers(agents@)),
                    "}}"@,
                    decimal(agents@[i].0 as nat),
                );
            }
        },
        FinishObjection::RunningProcesses { processes } => {
            if 0 <= i < processes@.len() {
                lemma_ids(processes@, i);
                lemma_middle(
                    decimal(processes@.len()) + " background process(es) are still running: "@,
                    joined(id_numbers(processes@), ", "@),
                    ". Wait for or kill them first."@,
                    decimal(processes@[i].0 as nat),
                );
                lemma_middle(
                    "{\"runningProcesses\":{\"processes\":"@,
                    list_json(id_numbers(processes@)),
                    "}}"@,
                    decimal(processes@[i].0 as nat),
                );
            }
        },
        FinishObjection::OutcomeUnknownExecutions { executions } => {
            if 0 <= i < executions@.len() {
                lemma_ids(executions@, i);
                lemma_middle(
                    decimal(executions@.len()) + " PTC execution(s) have unknown outcomes: "@,
                    joined(id_numbers(executions@), ", "@),
                    ". Inspect their effects before retrying or finishing."@,
                    decimal(executions@[i].0 as nat),
                );
                lemma_middle(
                    "{\"outcomeUnknownExecutions\":{\"executions\":"@,
                    list_json(id_numbers(executions@)),
                    "}}"@,
                    decimal(executions@[i].0 as nat),
                );
            }
        },
        FinishObjection::UnintegratedWorkspaces { workspaces } => {
            if 0 <= i < workspaces@.len() {
                lemma_ids(workspaces@, i);
                lemma_middle(
                    "isolated child workspace(s) "@,
                    joined(id_numbers(workspaces@), ", "@),
                    " were never integrated or discarded."@,
                    decimal(workspaces@[i] as nat),
                );
                lemma_middle(
                    "{\"unintegratedWorkspaces\":{\"workspaces\":"@,
                    list_json(id_numbers(workspaces@)),
                    "}}"@,
                    decimal(workspaces@[i] as nat),
                );
            }
        },
        FinishObjection::FailedVerification { kinds } => {
            if 0 <= i < kinds@.len() {
                lemma_texts(kinds@, ", "@, i);
                lemma_middle(
                    "the newest verification failed for: "@,
                    joined(views(kinds@), ", "@),
                    ". Fix and re-record evidence."@,
                    kinds@[i]@,
                );
                lemma_middle(
                    "{\"failedVerification\":{\"kinds\":"@,
                    texts_json(views(kinds@)),
                    "}}"@,
                    quoted(kinds@[i]@),
                );
            }
        },
        FinishObjection::PendingWork { items } => {
            if 0 <= i < items@.len() {
                lemma_texts(items@, "; "@, i);
                lemma_end("pending work remains: "@, joined(views(items@), "; "@), items@[i]@);
                lemma_middle(
                    "{\"pendingWork\":{\"items\":"@,
                    texts_json(views(items@)),
                    "}}"@,
                    quoted(items@[i]@),
                );
            }
        },
        FinishObjection::UnmetCriteria { criteria } => {
            if 0 <= i < criteria@.len() {
                lemma_texts(criteria@, "; "@, i);
                lemma_end(
                    "unmet acceptance criteria: "@,
                    joined(views(criteria@), "; "@),
                    criteria@[i]@,
                );
                lemma_middle(
                    "{\"unmetCriteria\":{\"criteria\":"@,
                    texts_json(views(criteria@)),
                    "}}"@,
                    quoted(criteria@[i]@),
                );
            }
        },
        FinishObjection::OpenConflict { paths } => {
            if 0 <= i < paths@.len() {
                lemma_texts(paths@, ", "@, i);
                lemma_middle(
                    "an integration conflict on "@,
                    joined(views(paths@), ", "@),
                    " was never resolved."@,
                    paths@[i]@,
                );
                lemma_middle(
                    "{\"openConflict\":{\"paths\":"@,
                    texts_json(views(paths@)),
                    "}}"@,
                    quoted(paths@[i]@),
                );
            }
        },
        _ => {},
    }
}

/// The explanation of a refusal gives the explanation of every objection.
pub proof fn law_a_refusal_explains_every_objection(verdict: FinishVerdict, i: int)
    requires
        !verdict.accepted,
        0 <= i < verdict.objections@.len(),
    ensures
        contains(verdict.explanation(), verdict.objections@[i].explanation()),
        contains(verdict.answer_json(), quoted(verdict.explanation())),
        contains(verdict.answer_json(), verdict.objections@[i].json()),
{
    let o = verdict.objections@[i];
    let reasons = reason_lines(verdict.objections@);
    assert(reasons[i] == "- "@ + o.explanation());
    law_a_joined_text_shows_its_parts(reasons, "\n"@, i);
    lemma_in_sum("- "@, o.explanation());
    lemma_shows(joined(reasons, "\n"@), reasons[i], o.explanation());
    lemma_middle(
        "finish() refused: the task is not complete.\n"@,
        joined(reasons, "\n"@),
        "\nResolve these, or call finish({ force: true }) if only pending-work judgement remains."@,
        o.explanation(),
    );
    let jsons = verdict.objections@.map_values(|o: FinishObjection| o.json());
    assert(jsons[i] == o.json());
    law_a_joined_text_shows_its_parts(jsons, ","@, i);
    lemma_middle("["@, joined(jsons, ","@), "]"@, o.json());
    let list = objections_json(",\"objections\":"@, verdict.objections@);
    let more = objections_json(",\"waived\":"@, verdict.waived@);
    lemma_end(",\"objections\":"@, list_json(jsons), o.json());
    let lead = "{\"accepted\":"@ + "false"@ + ",\"explanation\":"@;
    let said = quoted(verdict.explanation());
    lemma_in_sum(said, said);
    lemma_middle(lead, said, list, said);
    lemma_end(lead + said, list, o.json());
    lemma_in_sum(lead + said + list, more);
    lemma_shows(lead + said + list + more, lead + said + list, said);
    lemma_shows(lead + said + list + more, lead + said + list, o.json());
    lemma_in_sum(lead + said + list + more, "}"@);
    lemma_shows(lead + said + list + more + "}"@, lead + said + list + more, said);
    lemma_shows(lead + said + list + more + "}"@, lead + said + list + more, o.json());
}

/// A waived objection is in the answer as well.
pub proof fn law_waived_objections_are_in_the_answer(verdict: FinishVerdict, i: int)
    requires
        0 <= i < verdict.waived@.len(),
    ensures
        contains(verdict.answer_json(), verdict.waived@[i].json()),
{
    let o = verdict.waived@[i];
    let jsons = verdict.waived@.map_values(|o: FinishObjection| o.json());
    assert(jsons[i] == o.json());
    law_a_joined_text_shows_its_parts(jsons, ","@, i);
    lemma_middle("["@, joined(jsons, ","@), "]"@, o.json());
    let more = objections_json(",\"waived\":"@, verdict.waived@);
    lemma_end(",\"waived\":"@, list_json(jsons), o.json());
    let lead = "{\"accepted\":"@ + (if verdict.accepted {
        "true"@
    } else {
        "false"@
    }) + ",\"explanation\":"@ + quoted(verdict.explanation()) + objections_json(
        ",\"objections\":"@,
        verdict.objections@,
    );
    lemma_middle(lead, more, "}"@, o.json());
}

/// A text in JSON stands between quotes, character by character: only quotes,
/// backslashes and control characters are written otherwise.
pub proof fn law_a_quoted_text_is_written_character_by_character(s: Seq<char>, c: char)
    ensures
        quoted(s)[0] == '"' && quoted(s).last() == '"',
        escaped(Seq::empty()) == Seq::<char>::empty(),
        escaped(s.push(c)) == escaped(s) + escaped_char(c),
        c != '"' && c != '\\' && (c as u32) >= 32 ==> escaped_char(c) == seq![c],
        escaped_char('"') == seq!['\\', '"'],
        escaped_char('\\') == seq!['\\', '\\'],
        escaped_char('\n') == seq!['\\', 'n'],
{
    assert(s.push(c).drop_last() =~= s);
}

/// The documents that the library writes hold what they are about.
pub proof fn law_documents_hold_what_they_are_about(
    message: Seq<char>,
    id: u64,
    revision: Seq<char>,
)
    ensures
        contains(error_json(message), quoted(message)),
        contains(checkpoint_json(id, revision), decimal(id as nat)),
        contains(checkpoint_json(id, revision), quoted(revision)),
{
    lemma_in_sum(quoted(message), quoted(message));
    lemma_middle("{\"error\":"@, quoted(message), "}"@, quoted(message));
    let n = decimal(id as nat);
    lemma_in_sum(n, n);
    lemma_in_sum(quoted(revision), quoted(revision));
    lemma_middle("{\"id\":"@, n, ",\"revision\":"@, n);
    lemma_in_sum("{\"id\":"@ + n + ",\"revision\":"@, quoted(revision));
    lemma_shows(
        "{\"id\":"@ + n + ",\"revision\":"@ + quoted(revision),
        "{\"id\":"@ + n + ",\"revision\":"@,
        n,
    );
    lemma_in_sum("{\"id\":"@ + n + ",\"revision\":"@ + quoted(revision), "}"@);
    lemma_shows(
        checkpoint_json(id, revision),
        "{\"id\":"@ + n + ",\"revision\":"@ + quoted(revision),
        n,
    );
    lemma_middle("{\"id\":"@ + n + ",\"revision\":"@, quoted(revision), "}"@, quoted(revision));
}

} // verus!
