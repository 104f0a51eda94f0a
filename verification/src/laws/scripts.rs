//! What holds of the programs of the model, of their values and failures, and of
//! the prelude that they run after.
use vstd::prelude::*;
use crate::engine::{thrown_text, JSValue, VmError};
use crate::identity::ResultId;
use crate::json::{json_array_len, json_keys, json_number, json_signed, quoted};
use crate::laws::texts::lemma_in_sum;
use crate::ptc::diagnostics::{declares_lexically, hint_of, is_word_char, kind_of, lower, lowered, nth, numbers_of, piece_number, pieces, PtcDiagnosticKind, RunFacts};
use crate::ptc::prelude::{below, config_file, description_of, docs_of, identity_of, is_loaded, says_something, without_lead, FileProbe, Prelude, PreludeError, PreludeOrigin, MAX_PRELUDE_BYTES};
use crate::ptc::run::{findings_place, has_id, is_summary, is_setup_failure, item_below, key_below, key_part, listed, numbers_at, numbers_of_items, numbers_of_keys, setup_message, stage_after, stored, thrown_outcome, Ending, ExecSummary, Stage};
use crate::ptc::runtime::Outcome;
use crate::ptc::trust::{decided, entry_of, trust_of, Trust, TrustDecision, TrustEntry};
use crate::ptc::values::{converted, elements, left_of, value_json, Js, Scalar, MAX_ITEMS};
use crate::text::{byte_len, contains, decimal, has_prefix, joined, lines, trim_end, trim_start, trimmed};

verus! {

/// A run goes through its stages in order: the host's functions, the prelude where
/// there is one, the host's functions again, and the program last.
pub proof fn law_a_run_goes_through_its_stages(has_prelude: bool)
    ensures
        stage_after(Stage::Install, true) == Some(Stage::Prelude),
        stage_after(Stage::Install, false) == Some(Stage::Program),
        stage_after(Stage::Prelude, has_prelude) == Some(Stage::Reinstall),
        stage_after(Stage::Reinstall, has_prelude) == Some(Stage::Program),
        stage_after(Stage::Program, has_prelude) is None,
{
}

/// A program that the user cancelled was interrupted, one that ran out of time or
/// of instructions went over its budget, and any other that threw has failed with
/// what it threw.
pub proof fn law_what_a_program_threw_is_what_it_came_to(message: Seq<char>)
    ensures
        thrown_outcome(PtcDiagnosticKind::Cancelled, message) == Outcome::Interrupted,
        thrown_outcome(PtcDiagnosticKind::WallTime, message) is BudgetExceeded,
        thrown_outcome(PtcDiagnosticKind::InstructionBudget, message) is BudgetExceeded,
        thrown_outcome(PtcDiagnosticKind::Syntax, message) == Outcome::Failed(message),
        thrown_outcome(PtcDiagnosticKind::Runtime, message) == Outcome::Failed(message),
        thrown_outcome(PtcDiagnosticKind::UnsupportedSyntax, message) == Outcome::Failed(message),
        thrown_outcome(PtcDiagnosticKind::ToolBudget, message) == Outcome::Failed(message),
        thrown_outcome(PtcDiagnosticKind::ProcessBudget, message) == Outcome::Failed(message),
{
}

/// A number in the metadata of a verification is found where it stands: by itself,
/// in a list, or under a key, at any depth up to the bound.
pub proof fn law_numbers_are_found_where_they_stand(
    document: Seq<char>,
    place: Seq<char>,
    depth: nat,
    n: u64,
    i: int,
    keys: Seq<Seq<char>>,
    len: usize,
)
    ensures
        json_number(document, place) == Some(n) ==> numbers_at(document, place, depth + 1) == seq![
            n,
        ],
        json_number(document, place) is None && json_array_len(document, place) == Some(len) && 0
            <= i < len && numbers_at(document, item_below(place, i), depth).contains(n)
            ==> numbers_at(document, place, depth + 1).contains(n),
        json_number(document, place) is None && json_array_len(document, place) is None
            && json_keys(document, place) == Some(keys) && 0 <= i < keys.len() && numbers_at(
            document,
            key_below(place, keys[i]),
            depth,
        ).contains(n) ==> numbers_at(document, place, depth + 1).contains(n),
{
    if 0 <= i < len {
        lemma_items_hold(document, place, len as nat, depth, i, n);
    }
    if 0 <= i < keys.len() {
        lemma_keys_hold(document, place, keys, depth, i, n);
    }
}

proof fn lemma_items_hold(
    document: Seq<char>,
    place: Seq<char>,
    len: nat,
    depth: nat,
    i: int,
    n: u64,
)
    requires
        0 <= i < len,
    ensures
        numbers_at(document, item_below(place, i), depth).contains(n) ==> numbers_of_items(
            document,
            place,
            len,
            depth,
        ).contains(n),
    decreases len,
{
    let init = numbers_of_items(document, place, (len - 1) as nat, depth);
    let last = numbers_at(document, item_below(place, len - 1), depth);
    crate::laws::completion::lemma_sum_contains(init, last);
    if i < len - 1 {
        lemma_items_hold(document, place, (len - 1) as nat, depth, i, n);
    }
}

proof fn lemma_keys_hold(
    document: Seq<char>,
    place: Seq<char>,
    keys: Seq<Seq<char>>,
    depth: nat,
    i: int,
    n: u64,
)
    requires
        0 <= i < keys.len(),
    ensures
        numbers_at(document, key_below(place, keys[i]), depth).contains(n) ==> numbers_of_keys(
            document,
            place,
            keys,
            depth,
        ).contains(n),
    decreases keys.len(),
{
    let init = numbers_of_keys(document, place, keys.drop_last(), depth);
    let last = numbers_at(document, key_below(place, keys.last()), depth);
    crate::laws::completion::lemma_sum_contains(init, last);
    if i < keys.len() - 1 {
        lemma_keys_hold(document, place, keys.drop_last(), depth, i, n);
    }
}

/// A place in a document is written as a pointer: a key as it is, but for the two
/// characters that a pointer gives a meaning.
pub proof fn law_a_place_is_written_as_a_pointer(key: Seq<char>, c: char, place: Seq<char>, i: int)
    ensures
        key_part(Seq::empty()) == Seq::<char>::empty(),
        c != '~' && c != '/' ==> key_part(key.push(c)) == key_part(key).push(c),
        key_part(key.push('/')) == key_part(key) + seq!['~', '1'],
        key_part(key.push('~')) == key_part(key) + seq!['~', '0'],
        key_below(place, key) == place + "/"@ + key_part(key),
        i >= 0 ==> item_below(place, i) == place + "/"@ + decimal(i as nat),
{
    assert(key.push(c).drop_last() =~= key);
    assert(key.push('/').drop_last() =~= key);
    assert(key.push('~').drop_last() =~= key);
    assert(key_part(key) + seq![c] =~= key_part(key).push(c));
}

/// A result is named where one of the list has its number.
pub proof fn law_results_are_known_by_their_number(ids: Seq<ResultId>, n: u64, i: int)
    ensures
        0 <= i < ids.len() && ids[i].0 == n ==> has_id(ids, n) && stored(ids, n),
        has_id(ids, n) || stored(ids, n) ==> exists|k: int|
            0 <= k < ids.len() && (#[trigger] ids[k]).0 == n,
{
}

/// A command is summed up by its exit code, its duration and its two results.
pub proof fn law_a_command_is_summed_up(s: ExecSummary, output: Seq<char>)
    requires
        is_summary(s, output),
    ensures
        json_signed(output, "/exitCode"@) matches Some(n) ==> s.exit_code == n,
        json_signed(output, "/exitCode"@) is None ==> s.exit_code == -1,
        json_signed(output, "/durationMs"@) matches Some(n) ==> s.duration_ms == n,
        json_number(output, "/stdoutId"@) matches Some(n) ==> s.stdout == n,
        json_number(output, "/stderrId"@) matches Some(n) ==> s.stderr == n,
{
}

/// A search is answered with its list of findings, element by element.
pub proof fn law_findings_are_listed(document: Seq<char>, place: Seq<char>, n: nat, i: int)
    requires
        0 <= i < n,
    ensures
        findings_place("glob"@) == Some("/files"@),
        findings_place("grep"@) == Some("/matches"@),
        findings_place("read"@) is None,
        listed(document, place, n).len() == n,
        crate::json::json_value(document, place + "/"@ + decimal(i as nat)) matches Some(item)
            ==> listed(document, place, n)[i] == item,
{
    reveal_strlit("glob");
    reveal_strlit("grep");
    reveal_strlit("read");
    assert("glob"@[1] == 'l');
    assert("grep"@[1] == 'r');
    assert("glob"@[0] == 'g' && "grep"@[0] == 'g' && "read"@[0] == 'r');
}

/// The decision on a prelude is the last that was made on its content.
pub proof fn law_the_last_decision_counts(
    entries: Seq<TrustEntry>,
    entry: TrustEntry,
    id: Seq<char>,
)
    ensures
        entry_of(Seq::empty(), id) is None,
        entry.id@ == id ==> entry_of(entries.push(entry), id) == Some(entry),
        entry.id@ != id ==> entry_of(entries.push(entry), id) == entry_of(entries, id),
        decided(Some(entry)) == Some(entry.decision),
        decided(None) is None,
        trust_of(Some(TrustDecision::Trusted)) == Trust::Trusted,
        trust_of(Some(TrustDecision::Rejected)) == Trust::Rejected,
        trust_of(None) == Trust::Unknown,
{
    assert(entries.push(entry).drop_last() =~= entries);
}

/// What the user decided is kept below their own configuration: where they set
/// one, and else below their home.
pub proof fn law_the_users_files_lie_in_their_configuration(
    xdg: Seq<char>,
    home: Seq<char>,
    name: Seq<char>,
    other: Option<Seq<char>>,
)
    requires
        xdg.len() > 0,
        home.len() > 0,
    ensures
        config_file(Some(xdg), other, name) == Some(below(xdg, "mh/"@ + name)),
        config_file(None, Some(home), name) == Some(below(home, ".config/mh/"@ + name)),
        config_file(Some(Seq::empty()), Some(home), name) == config_file(None, Some(home), name),
        config_file(None, None, name) is None,
        has_prefix(below(home, name), home),
{
    assert(below(home, name).subrange(0, home.len() as int) =~= home);
}

/// A prelude is known by its content: it is loaded as it stands in its file, up to
/// the limit, and a file that is not there is none.
pub proof fn law_a_prelude_is_loaded_as_it_stands(
    path: Seq<char>,
    origin: PreludeOrigin,
    bytes: u64,
    source: String,
    r: Result<Option<Prelude>, PreludeError>,
)
    requires
        is_loaded(path, origin, FileProbe::File { bytes, content: Ok(source) }, r),
    ensures
        bytes <= MAX_PRELUDE_BYTES ==> (r matches Ok(Some(prelude)) && prelude.source@ == source@
            && prelude.path@ == path && prelude.origin == origin),
        bytes > MAX_PRELUDE_BYTES ==> (r matches Err(PreludeError::TooLarge { .. })),
        is_loaded(path, origin, FileProbe::Missing, Ok(None)),
        has_prefix(identity_of(source@), "sha256:"@),
{
    let rest = crate::digest::sha256_hex(
        vstd::utf8::encode_utf8("mh-prelude-v1\0"@ + source@),
    );
    assert(("sha256:"@ + rest).subrange(0, "sha256:"@.len() as int) =~= "sha256:"@);
}

/// A prelude describes itself in the lines that are marked for it, in order, and
/// in no others.
pub proof fn law_a_prelude_describes_itself(all: Seq<Seq<char>>, line: Seq<char>, text: Seq<char>)
    ensures
        docs_of(Seq::empty()) == Seq::<Seq<char>>::empty(),
        trim_start(line) == "//!"@ + text ==> docs_of(all.push(line)) == docs_of(all).push(
            trim_end(text),
        ),
        !has_prefix(trim_start(line), "//!"@) ==> docs_of(all.push(line)) == docs_of(all),
        without_lead(seq![' '] + text) == text,
{
    assert(all.push(line).drop_last() =~= all);
    if trim_start(line) == "//!"@ + text {
        let n = "//!"@.len() as int;
        assert(("//!"@ + text).subrange(0, n) =~= "//!"@);
        assert(("//!"@ + text).skip(n) =~= text);
    }
    assert((seq![' '] + text).skip(1) =~= text);
}

/// A prelude that says nothing of itself has no description, and every line of one
/// that does is in it.
pub proof fn law_a_description_is_what_was_said(source: Seq<char>, i: int)
    ensures
        description_of(source) is None <==> forall|k: int|
            0 <= k < docs_of(lines(source)).len() ==> trimmed(
                #[trigger] docs_of(lines(source))[k],
            ).len() == 0,
        description_of(source) is Some && 0 <= i < docs_of(lines(source)).len() ==> contains(
            description_of(source)->0,
            without_lead(docs_of(lines(source))[i]),
        ),
{
    let docs = docs_of(lines(source));
    if description_of(source) is Some && 0 <= i < docs.len() {
        let parts = docs.map_values(|d: Seq<char>| without_lead(d));
        crate::laws::texts::law_a_joined_text_shows_its_parts(parts, "\n"@, i);
    }
    if says_something(docs) {
        let k = choose|k: int| 0 <= k < docs.len() && trimmed(#[trigger] docs[k]).len() > 0;
        assert(trimmed(docs[k]).len() > 0);
    }
}

/// A failure of a program is told by its cause: what the user cancelled, what took
/// too long and what ran too far come first, and then what the message says.
pub proof fn law_a_failure_is_told_by_its_cause(
    program: Seq<char>,
    message: Seq<char>,
    facts: RunFacts,
)
    ensures
        facts.cancelled ==> kind_of(program, message, facts) == PtcDiagnosticKind::Cancelled,
        !facts.cancelled && contains(lowered(message), "cancelled"@) ==> kind_of(
            program,
            message,
            facts,
        ) == PtcDiagnosticKind::Cancelled,
        kind_of(program, message, facts) == PtcDiagnosticKind::Cancelled ==> facts.cancelled
            || contains(lowered(message), "cancelled"@),
        facts.past_deadline && kind_of(program, message, facts) != PtcDiagnosticKind::Cancelled
            ==> kind_of(program, message, facts) == PtcDiagnosticKind::WallTime,
        kind_of(program, message, facts) == PtcDiagnosticKind::WallTime ==> facts.past_deadline,
        kind_of(program, message, facts) == PtcDiagnosticKind::InstructionBudget
            ==> facts.instructions_exceeded && !facts.past_deadline,
        facts.instructions_exceeded && !facts.past_deadline && kind_of(program, message, facts)
            != PtcDiagnosticKind::Cancelled ==> kind_of(program, message, facts)
            == PtcDiagnosticKind::InstructionBudget,
        kind_of(program, message, facts) == PtcDiagnosticKind::ToolBudget ==> contains(
            lowered(message),
            "tool call budget"@,
        ),
        kind_of(program, message, facts) == PtcDiagnosticKind::ProcessBudget ==> contains(
            lowered(message),
            "process budget"@,
        ),
        kind_of(program, message, facts) == PtcDiagnosticKind::Runtime ==> !contains(
            lowered(message),
            "syntax"@,
        ) && !declares_lexically(program),
        hint_of(kind_of(program, message, facts)) is Some <==> kind_of(program, message, facts)
            == PtcDiagnosticKind::UnsupportedSyntax,
{
}

/// The pieces of two texts that something parts are the pieces of each.
pub proof fn law_pieces_are_parted(s: Seq<char>, c: char, t: Seq<char>, digits: bool)
    requires
        !crate::ptc::diagnostics::belongs(c, digits),
    ensures
        pieces(s.push(c) + t, digits) == pieces(s, digits) + pieces(t, digits),
        pieces(t, digits).len() > 0,
    decreases t.len(),
{
    let whole = s.push(c) + t;
    if t.len() == 0 {
        assert(whole =~= s.push(c));
        assert(s.push(c).drop_last() =~= s);
        assert(pieces(whole, digits) =~= pieces(s, digits) + pieces(t, digits));
    } else {
        let init = t.drop_last();
        law_pieces_are_parted(s, c, init, digits);
        assert(whole.drop_last() =~= s.push(c) + init);
        assert(whole.last() == t.last());
        let a = pieces(s, digits);
        let b = pieces(init, digits);
        assert((a + b).drop_last() =~= a + b.drop_last());
        assert((a + b).last() == b.last());
        assert(pieces(whole, digits) =~= a + pieces(t, digits));
    }
}

proof fn lemma_one_piece(word: Seq<char>, digits: bool)
    requires
        forall|i: int|
            0 <= i < word.len() ==> crate::ptc::diagnostics::belongs(#[trigger] word[i], digits),
    ensures
        pieces(word, digits) == seq![word],
    decreases word.len(),
{
    if word.len() == 0 {
        assert(word =~= Seq::<char>::empty());
        assert(pieces(word, digits) =~= seq![word]);
    } else {
        let init = word.drop_last();
        assert forall|i: int| 0 <= i < init.len() implies crate::ptc::diagnostics::belongs(
            #[trigger] init[i],
            digits,
        ) by {
            assert(init[i] == word[i]);
        }
        lemma_one_piece(init, digits);
        assert(crate::ptc::diagnostics::belongs(word[word.len() - 1], digits));
        assert(init.push(word.last()) =~= word);
        assert(seq![init].drop_last() =~= Seq::<Seq<char>>::empty());
        assert(pieces(word, digits) =~= seq![word]);
    }
}

/// A program that declares a variable in a way the engine does not know is found
/// out, wherever the word stands by itself.
pub proof fn law_lexical_declarations_are_found(
    before: Seq<char>,
    c: char,
    word: Seq<char>,
    d: char,
    after: Seq<char>,
)
    requires
        word == "let"@ || word == "const"@,
        !is_word_char(c),
        !is_word_char(d),
    ensures
        declares_lexically(before.push(c) + (word.push(d) + after)),
{
    reveal_strlit("let");
    reveal_strlit("const");
    let rest = word.push(d) + after;
    law_pieces_are_parted(word, d, after, false);
    law_pieces_are_parted(before, c, rest, false);
    lemma_one_piece(word, false);
    let a = pieces(before, false);
    let all = pieces(before.push(c) + rest, false);
    assert(all == a + (seq![word] + pieces(after, false)));
    assert(all[a.len() as int] == word);
}

/// Where a message names a line and a column, those are the first two of its
/// numbers.
pub proof fn law_numbers_are_taken_in_order(parts: Seq<Seq<char>>, part: Seq<char>, n: nat)
    requires
        n <= u32::MAX,
    ensures
        numbers_of(Seq::empty()) == Seq::<u32>::empty(),
        piece_number(decimal(n)) == Some(n as u32),
        piece_number(part) is Some ==> numbers_of(parts.push(part)) == numbers_of(parts).push(
            piece_number(part)->0,
        ),
        piece_number(part) is None ==> numbers_of(parts.push(part)) == numbers_of(parts),
        numbers_of(parts).len() > 1 ==> nth(numbers_of(parts), 0) == Some(numbers_of(parts)[0])
            && nth(numbers_of(parts), 1) == Some(numbers_of(parts)[1]),
        nth(Seq::empty(), 0) is None,
{
    assert(parts.push(part).drop_last() =~= parts);
    crate::laws::texts::law_a_written_number_is_read_back(n, part, 0);
}

/// Letters are compared without their case, and nothing else about a text changes.
pub proof fn law_only_the_case_of_letters_is_dropped(s: Seq<char>, i: int)
    requires
        0 <= i < s.len(),
    ensures
        lowered(s).len() == s.len(),
        !('A' <= s[i] <= 'Z') ==> lowered(s)[i] == s[i],
        lower('A') == 'a',
        lower('Z') == 'z',
{
    assert((65u32 + 32) as char == 'a');
    assert((90u32 + 32) as char == 'z');
}

/// A plain value is handed to the host as it is.
pub proof fn law_a_plain_value_is_handed_over(s: String, b: bool, printed: String, max: nat)
    ensures
        value_json(Js::Scalar(Scalar::Text(s)), max) == quoted(s@),
        value_json(Js::Scalar(Scalar::Bool(true)), max) == "true"@,
        value_json(Js::Scalar(Scalar::Bool(false)), max) == "false"@,
        value_json(Js::Scalar(Scalar::Null), max) == "null"@,
        value_json(Js::Scalar(Scalar::Number(printed)), max) == printed@,
        Scalar::Text(s).weight() == byte_len(s@) + 2,
{
    reveal_with_fuel(converted, 2);
}

/// What plain values weigh together, from one on.
pub open spec fn weight_from(items: Seq<Js>, i: nat) -> nat
    decreases items.len() - i,
{
    if i >= items.len() {
        0
    } else {
        (match items[i as int] {
            Js::Scalar(s) => s.weight(),
            _ => 0,
        }) + weight_from(items, i + 1)
    }
}

proof fn lemma_elements(items: Seq<Js>, i: nat, budget: nat)
    requires
        forall|k: int| 0 <= k < items.len() ==> (#[trigger] items[k]) is Scalar,
        i <= items.len(),
        i < items.len() ==> weight_from(items, i) < budget,
    ensures
        elements(items, i, budget, 0).0 == items.skip(i as int).map_values(
            |v: Js| v->Scalar_0.json(),
        ),
    decreases items.len() - i,
{
    reveal_with_fuel(converted, 2);
    reveal_with_fuel(elements, 2);
    let f = |v: Js| v->Scalar_0.json();
    if i < items.len() {
        let s = items[i as int]->Scalar_0;
        assert(items[i as int] is Scalar);
        lemma_elements(items, i + 1, left_of(budget, s.weight()));
        assert(items.skip(i as int).map_values(f) =~= seq![s.json()] + items.skip(
            i as int + 1,
        ).map_values(f));
    } else {
        assert(items.skip(i as int).map_values(f) =~= Seq::<Seq<char>>::empty());
    }
}

/// A list of plain values that fits its budget is handed over whole, in order.
pub proof fn law_a_list_is_handed_over_in_order(items: Vec<Js>, max: nat)
    requires
        items@.len() <= MAX_ITEMS,
        forall|k: int| 0 <= k < items@.len() ==> (#[trigger] items@[k]) is Scalar,
        weight_from(items@, 0) < max,
    ensures
        value_json(Js::Array(items), max) == "["@ + joined(
            items@.map_values(|v: Js| v->Scalar_0.json()),
            ","@,
        ) + "]"@,
{
    lemma_elements(items@, 0, max);
    assert(items@.take(items@.len() as int) =~= items@);
    assert(items@.skip(0) =~= items@);
}

/// What a program throws is reported by its message, and else by the thing itself.
pub proof fn law_an_exception_is_reported(
    thrown: JSValue,
    message: Seq<char>,
    whole: Seq<char>,
    other: Option<Seq<char>>,
    error: String,
)
    requires
        thrown.0 != 7,
        thrown.0 != 11,
    ensures
        message.len() > 0 ==> thrown_text(thrown, Some(message), other) == message,
        thrown_text(thrown, None, Some(whole)) == whole,
        thrown_text(thrown, Some(Seq::empty()), Some(whole)) == whole,
        contains(VmError::Exception(error).text(), error@),
{
    lemma_in_sum("js error: "@, error@);
}

/// A run that could not be set up has failed, with the message as its outcome and
/// as its diagnosis, and a prelude that fails is named.
pub proof fn law_a_setup_that_fails_says_so(
    ending: Ending,
    message: Seq<char>,
    name: Seq<char>,
    error: VmError,
)
    ensures
        is_setup_failure(ending, message) ==> ending.outcome@ == Outcome::Failed(message)
            && ending.value.text@ == "null"@ && (ending.diagnostic matches Some(d) && d.message@
            == message && d.kind == PtcDiagnosticKind::Runtime && d.line is None && d.column is None
            && d.hint is None),
        setup_message(Stage::Prelude, name, error) == name + ": "@ + error.text(),
        setup_message(Stage::Install, name, error) == error.text(),
        setup_message(Stage::Reinstall, name, error) == error.text(),
{
}

/// Words are made of letters, digits and underscores.
pub proof fn law_words_are_made_of_letters_and_digits(c: char)
    ensures
        'a' <= c <= 'z' ==> is_word_char(c),
        'A' <= c <= 'Z' ==> is_word_char(c),
        '0' <= c <= '9' ==> is_word_char(c),
        is_word_char('_'),
        !is_word_char(' ') && !is_word_char('\n') && !is_word_char('(') && !is_word_char(';'),
{
}

/// A prelude that cannot be read is an error at its path, with what was said of
/// it; what is no file is no prelude.
pub proof fn law_a_prelude_that_cannot_be_read_is_an_error(
    path: Seq<char>,
    origin: PreludeOrigin,
    why: String,
    bytes: u64,
    r: Result<Option<Prelude>, PreludeError>,
)
    ensures
        is_loaded(path, origin, FileProbe::Unreadable(why), r) ==> (r matches Err(
            PreludeError::Io { path: at, message },
        ) && at@ == path && message@ == why@),
        is_loaded(path, origin, FileProbe::File { bytes, content: Err(why) }, r) && bytes
            <= MAX_PRELUDE_BYTES ==> (r matches Err(PreludeError::Io { path: at, message }) && at@
            == path && message@ == why@),
        is_loaded(path, origin, FileProbe::NotFile, r) ==> r == Ok::<Option<Prelude>, PreludeError>(
            None,
        ),
        is_loaded(path, origin, FileProbe::Missing, r) ==> r == Ok::<Option<Prelude>, PreludeError>(
            None,
        ),
{
}

} // verus!
