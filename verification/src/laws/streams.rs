//! What a streamed answer of the model amounts to.
use vstd::prelude::*;
use crate::context::CompiledContext;
use crate::json::{json_array_len, json_error, json_string, quoted};
use crate::laws::texts::{lemma_in_sum, lemma_shows};
use crate::model::{answered, applied, called, closed, event_of, fenced, fresh_reader, fresh_stream, is_outcome, item_taken, items_taken, line_taken, lines_taken, lowered, outcome, program_in, stream_outcome, text_of, timeout_of, without_trailing_slashes, Answer, EventView, GenerationStop, GenerationStopReason, ModelError, ModelOutput, OpenAiResponses, OutputView, PartView, ReaderView, StreamView, Told};
use crate::text::{contains, decimal, first_index, joined, lemma_first_index, number_of, occurs_at, trim_start, trimmed};

verus! {

/// Where a stream stands after some events.
pub open spec fn after_events(state: StreamView, events: Seq<EventView>) -> StreamView
    decreases events.len(),
{
    if events.len() == 0 {
        state
    } else {
        applied(after_events(state, events.drop_last()), events.last()).state
    }
}

/// Whether the events are text deltas, with these texts.
pub open spec fn are_deltas(events: Seq<EventView>, deltas: Seq<Seq<char>>) -> bool {
    &&& events.len() == deltas.len()
    &&& forall|i: int|
        0 <= i < events.len() ==> (#[trigger] events[i]).kind == Some(
            "response.output_text.delta"@,
        ) && events[i].delta == Some(deltas[i])
}

proof fn lemma_kinds()
    ensures
        "response.output_text.delta"@ != "response.created"@,
        "response.output_text.delta"@ != "response.reasoning_summary_text.delta"@,
        "response.output_text.delta"@ != "response.reasoning_summary_text.done"@,
        "response.completed"@ != "response.created"@,
        "response.completed"@ != "response.reasoning_summary_text.delta"@,
        "response.completed"@ != "response.reasoning_summary_text.done"@,
        "response.completed"@ != "response.output_text.delta"@,
        "response.completed"@ != "response.output_item.added"@,
        "response.completed"@ != "response.output_item.done"@,
        "response.completed"@ != "response.function_call_arguments.done"@,
        "response.output_item.done"@ != "response.created"@,
        "response.output_item.done"@ != "response.reasoning_summary_text.delta"@,
        "response.output_item.done"@ != "response.reasoning_summary_text.done"@,
        "response.output_item.done"@ != "response.output_text.delta"@,
        "response.function_call_arguments.done"@ != "response.created"@,
        "response.function_call_arguments.done"@ != "response.reasoning_summary_text.delta"@,
        "response.function_call_arguments.done"@ != "response.reasoning_summary_text.done"@,
        "response.function_call_arguments.done"@ != "response.output_text.delta"@,
        "response.function_call_arguments.done"@ != "response.output_item.added"@,
        "response.function_call_arguments.done"@ != "response.output_item.done"@,
{
    reveal_strlit("response.created");
    reveal_strlit("response.reasoning_summary_text.delta");
    reveal_strlit("response.reasoning_summary_text.done");
    reveal_strlit("response.output_text.delta");
    reveal_strlit("response.output_item.added");
    reveal_strlit("response.output_item.done");
    reveal_strlit("response.function_call_arguments.done");
    reveal_strlit("response.completed");
    assert("response.created"@.len() == 16);
    assert("response.reasoning_summary_text.delta"@.len() == 37);
    assert("response.reasoning_summary_text.done"@.len() == 36);
    assert("response.output_text.delta"@.len() == 26);
    assert("response.output_item.added"@.len() == 26);
    assert("response.output_item.done"@.len() == 25);
    assert("response.function_call_arguments.done"@.len() == 37);
    assert("response.function_call_arguments.done"@[9] == 'f');
    assert("response.reasoning_summary_text.delta"@[9] == 'r');
    assert("response.completed"@.len() == 18);
}

proof fn lemma_flatten_push(deltas: Seq<Seq<char>>, d: Seq<char>)
    ensures
        deltas.push(d).flatten() == deltas.flatten() + d,
    decreases deltas.len(),
{
    let t = deltas.push(d);
    if deltas.len() == 0 {
        assert(t.drop_first() =~= Seq::<Seq<char>>::empty());
        assert(t.drop_first().flatten() =~= Seq::<char>::empty());
        assert(deltas.flatten() =~= Seq::<char>::empty());
        assert(t.flatten() =~= deltas.flatten() + d);
    } else {
        lemma_flatten_push(deltas.drop_first(), d);
        assert(t.drop_first() =~= deltas.drop_first().push(d));
        assert(t.first() == deltas.first());
        assert(t.flatten() =~= deltas.flatten() + d);
    }
}

/// The text of an answer is everything that its deltas said, in order, after what
/// was said before. They change nothing else.
pub proof fn law_text_deltas_add_up(
    state: StreamView,
    events: Seq<EventView>,
    deltas: Seq<Seq<char>>,
)
    requires
        are_deltas(events, deltas),
    ensures
        after_events(state, events).output_text == state.output_text + deltas.flatten(),
        after_events(state, events).function_name == state.function_name,
        after_events(state, events).function_arguments == state.function_arguments,
        after_events(state, events).completed == state.completed,
        after_events(state, events).response_id == state.response_id,
    decreases events.len(),
{
    if events.len() == 0 {
        assert(deltas.flatten() =~= Seq::<char>::empty());
        assert(state.output_text + deltas.flatten() =~= state.output_text);
    } else {
        lemma_kinds();
        law_text_deltas_add_up(state, events.drop_last(), deltas.drop_last());
        assert(events.last() == events[events.len() - 1]);
        lemma_flatten_push(deltas.drop_last(), deltas.last());
        assert(deltas.drop_last().push(deltas.last()) =~= deltas);
        assert(state.output_text + deltas.drop_last().flatten() + deltas.last()
            =~= state.output_text + deltas.flatten());
    }
}

/// Every text delta and every step of the reasoning is told as it comes, and
/// nothing of them fails.
pub proof fn law_deltas_are_told(state: StreamView, event: EventView, delta: Seq<char>)
    requires
        event.delta == Some(delta),
    ensures
        event.kind == Some("response.output_text.delta"@) ==> applied(state, event).told == seq![
            Told::OutputTextDelta(delta),
        ] && applied(state, event).error is None,
        event.kind == Some("response.reasoning_summary_text.delta"@) ==> applied(state, event).told
            == seq![Told::ReasoningSummaryDelta(delta)] && applied(state, event).state == state
            && applied(state, event).error is None,
{
    lemma_kinds();
    reveal_strlit("response.created");
    reveal_strlit("response.reasoning_summary_text.delta");
    assert("response.created"@.len() == 16);
    assert("response.reasoning_summary_text.delta"@.len() == 37);
}

/// A stream of deltas that completes without a function call is answered with
/// their text.
pub proof fn law_a_stream_of_text_is_a_text_answer(
    events: Seq<EventView>,
    deltas: Seq<Seq<char>>,
    end: EventView,
)
    requires
        are_deltas(events, deltas),
        end.kind == Some("response.completed"@),
        end.output matches Some(items) ==> items.len() == 0,
        deltas.flatten().len() > 0,
    ensures
        outcome(applied(after_events(fresh_stream(), events), end).state) == Ok::<
            Answer,
            Seq<char>,
        >(answered(deltas.flatten())),
        applied(after_events(fresh_stream(), events), end).error is None,
{
    law_text_deltas_add_up(fresh_stream(), events, deltas);
    lemma_kinds();
    assert(Seq::<char>::empty() + deltas.flatten() =~= deltas.flatten());
}

/// A stream that ends before it completes is an error, whatever it said; so is
/// one that completes without saying anything.
pub proof fn law_an_unfinished_stream_is_an_error(state: StreamView)
    ensures
        !state.completed ==> outcome(state) is Err,
        state.function_name is None && state.output_text.len() == 0 ==> outcome(state) is Err,
        outcome(fresh_stream()) is Err,
{
}

/// A completed call of the one tool is a program, exactly as its source says; one
/// without a source is an error. A call of another function stands for itself.
pub proof fn law_a_function_call_is_what_it_says(state: StreamView, name: Seq<char>)
    requires
        state.completed,
        state.function_name == Some(name),
        json_error(state.function_arguments) is None,
    ensures
        name != "ptc"@ ==> outcome(state) == Ok::<Answer, Seq<char>>(
            Answer::FunctionCall(name, state.function_arguments),
        ),
        name == "ptc"@ && (json_string(state.function_arguments, "/source"@) matches Some(source)
            && trimmed(source).len() > 0) ==> outcome(state) == Ok::<Answer, Seq<char>>(
            Answer::Program(json_string(state.function_arguments, "/source"@)->0),
        ),
        name == "ptc"@ && json_string(state.function_arguments, "/source"@) is None ==> outcome(
            state,
        ) is Err,
        name == "ptc"@ && (json_string(state.function_arguments, "/source"@) matches Some(source)
            && trimmed(source).len() == 0) ==> outcome(state) is Err,
{
}

/// Arguments that are not JSON make no call.
pub proof fn law_a_call_needs_arguments_that_parse(state: StreamView)
    requires
        state.function_name is Some,
        json_error(state.function_arguments) is Some,
    ensures
        outcome(state) is Err,
{
}

/// A function call item gives the call its name and, where it has any, its
/// arguments; the end of the arguments gives the call all of them.
pub proof fn law_a_call_is_put_together(
    state: StreamView,
    item: EventView,
    end: EventView,
    name: Seq<char>,
    arguments: Seq<char>,
)
    requires
        item.kind == Some("response.output_item.done"@),
        item.item_kind == Some("function_call"@),
        item.item_name == Some(name),
        end.kind == Some("response.function_call_arguments.done"@),
        end.name is None,
        end.arguments == Some(arguments),
    ensures
        applied(state, item).state.function_name == Some(name),
        applied(state, item).state.output_text == state.output_text,
        item.item_arguments == Some(arguments) && arguments.len() > 0 ==> applied(
            state,
            item,
        ).state.function_arguments == arguments,
        item.item_arguments is None ==> applied(state, item).state.function_arguments
            == state.function_arguments,
        state.function_name != Some(name) ==> applied(state, item).told == seq![
            Told::FunctionCall(name),
        ],
        applied(state, end).state.function_arguments == arguments,
        applied(state, end).state.function_name == state.function_name,
        applied(state, end).state.output_text == state.output_text,
{
    lemma_kinds();
}

/// What the deltas said is not said again by the completed response: its items
/// fill in only what is still missing. A message fills in the text, part after
/// part; a function call fills in the call.
pub proof fn law_a_completed_response_fills_in_what_is_missing(
    state: StreamView,
    item: OutputView,
    parts: Seq<PartView>,
)
    ensures
        item.kind == Some("message"@) && state.output_text.len() > 0 ==> item_taken(state, item)
            == state,
        item.kind == Some("message"@) && state.output_text.len() == 0 && item.content == Some(parts)
            ==> item_taken(state, item) == (StreamView { output_text: text_of(parts), ..state }),
        item.kind == Some("function_call"@) && state.function_name is Some ==> item_taken(
            state,
            item,
        ) == state,
        item.kind == Some("function_call"@) && state.function_name is None ==> item_taken(
            state,
            item,
        ).function_name == item.name && (item.arguments matches Some(arguments) ==> item_taken(
            state,
            item,
        ).function_arguments == arguments) && item_taken(state, item).output_text
            == state.output_text,
{
    reveal_strlit("message");
    reveal_strlit("function_call");
    assert("message"@.len() == 7);
    assert("function_call"@.len() == 13);
}

/// The items of a completed response are taken up one after the other, and it
/// completes the stream.
pub proof fn law_a_completed_response_is_taken_up_in_order(
    state: StreamView,
    event: EventView,
    items: Seq<OutputView>,
    last: OutputView,
)
    requires
        event.kind == Some("response.completed"@),
        event.output == Some(items.push(last)),
    ensures
        applied(state, event).state == item_taken(
            applied(state, (EventView { output: Some(items), ..event })).state,
            last,
        ),
        applied(state, (EventView { output: None, ..event })).state.completed,
        applied(state, (EventView { output: None, ..event })).state.output_text
            == state.output_text,
        applied(state, (EventView { output: None, ..event })).state.function_name
            == state.function_name,
        applied(state, (EventView { output: None, ..event })).state.function_arguments
            == state.function_arguments,
        state.response_id is Some ==> applied(
            state,
            (EventView { output: None, ..event }),
        ).state.response_id == state.response_id,
        state.response_id is None ==> applied(
            state,
            (EventView { output: None, ..event }),
        ).state.response_id == event.response_id,
{
    lemma_kinds();
    assert(items.push(last).drop_last() =~= items);
}

/// The text of a message is the text of its output parts, in order.
pub proof fn law_a_message_is_the_text_of_its_parts(parts: Seq<PartView>, part: PartView)
    ensures
        text_of(Seq::empty()) == Seq::<char>::empty(),
        part.kind == Some("output_text"@) && part.text is Some ==> text_of(parts.push(part))
            == text_of(parts) + part.text->0,
        part.kind != Some("output_text"@) || part.text is None ==> text_of(parts.push(part))
            == text_of(parts),
{
    assert(parts.push(part).drop_last() =~= parts);
}

/// A stream that the provider breaks off fails, with the provider's own message
/// where there is one, and an event without a kind is a breach of protocol.
pub proof fn law_a_broken_stream_fails(state: StreamView, event: EventView)
    ensures
        event.kind is None ==> applied(state, event).error is Some,
        event.kind == Some("response.failed"@) || event.kind == Some("response.incomplete"@)
            ==> applied(state, event).error is Some && (event.error_message is Some ==> applied(
            state,
            event,
        ).error == event.error_message),
        event.kind == Some("error"@) ==> applied(state, event).error is Some && (
        event.message is Some ==> applied(state, event).error == event.message),
        applied(state, event).error is Some ==> applied(state, event).state == state,
{
    reveal_strlit("response.created");
    reveal_strlit("response.reasoning_summary_text.delta");
    reveal_strlit("response.reasoning_summary_text.done");
    reveal_strlit("response.output_text.delta");
    reveal_strlit("response.output_item.added");
    reveal_strlit("response.output_item.done");
    reveal_strlit("response.function_call_arguments.done");
    reveal_strlit("response.completed");
    reveal_strlit("response.failed");
    reveal_strlit("response.incomplete");
    reveal_strlit("error");
    assert("response.created"@.len() == 16);
    assert("response.reasoning_summary_text.delta"@.len() == 37);
    assert("response.reasoning_summary_text.done"@.len() == 36);
    assert("response.output_text.delta"@.len() == 26);
    assert("response.output_item.added"@.len() == 26);
    assert("response.output_item.done"@.len() == 25);
    assert("response.function_call_arguments.done"@.len() == 37);
    assert("response.completed"@.len() == 18);
    assert("response.failed"@.len() == 15);
    assert("response.incomplete"@.len() == 19);
    assert("error"@.len() == 5);
}

/// The lines of one event are held together until a blank line, and then the
/// event is taken up as one document.
pub proof fn law_a_blank_line_ends_an_event(p: ReaderView, data: Seq<char>)
    requires
        !p.done,
        p.error is None,
        p.pending.len() == 0,
        trim_start(data) == data,
        data != "[DONE]"@,
        json_error(data) is None,
    ensures
        line_taken(line_taken(p, "data:"@ + data), Seq::empty()).stream == applied(
            p.stream,
            event_of(data),
        ).state,
        line_taken(line_taken(p, "data:"@ + data), Seq::empty()).told == p.told + applied(
            p.stream,
            event_of(data),
        ).told,
        line_taken(line_taken(p, "data:"@ + data), Seq::empty()).pending.len() == 0,
        line_taken(line_taken(p, "data:"@ + data), Seq::empty()).error == applied(
            p.stream,
            event_of(data),
        ).error,
        line_taken(p, "data:"@ + data).stream == p.stream,
{
    reveal_strlit("data:");
    let line = "data:"@ + data;
    assert("data:"@.len() == 5);
    assert(line.subrange(0, 5) =~= "data:"@);
    assert(line.skip(5) =~= data);
    let q = line_taken(p, line);
    assert(p.pending =~= Seq::<Seq<char>>::empty());
    assert(q.pending =~= seq![data]);
    assert(joined(q.pending, "\n"@) == data);
}

/// A blank line between events, a comment and any other field of an event are
/// passed over, and so is everything after the end or after a failure.
pub proof fn law_other_lines_are_passed_over(p: ReaderView, line: Seq<char>)
    ensures
        p.done || p.error is Some ==> line_taken(p, line) == p,
        line.len() == 0 && p.pending.len() == 0 ==> line_taken(p, line) == p,
        line.len() > 0 && !crate::text::has_prefix(line, "data:"@) ==> line_taken(p, line) == p,
        !p.done && p.error is None && p.pending == seq!["[DONE]"@] ==> line_taken(
            p,
            Seq::empty(),
        ).done && line_taken(p, Seq::empty()).stream == p.stream,
{
    assert(joined(seq!["[DONE]"@], "\n"@) == "[DONE]"@);
}

/// A line that follows on others of the same event is added to them.
pub proof fn law_lines_of_an_event_are_kept_in_order(p: ReaderView, data: Seq<char>)
    requires
        !p.done,
        p.error is None,
        trim_start(data) == data,
    ensures
        line_taken(p, "data:"@ + data) == (ReaderView { pending: p.pending.push(data), ..p }),
{
    reveal_strlit("data:");
    let line = "data:"@ + data;
    assert("data:"@.len() == 5);
    assert(line.subrange(0, 5) =~= "data:"@);
    assert(line.skip(5) =~= data);
}

/// A last event that no blank line follows is taken up all the same.
pub proof fn law_a_last_event_counts(p: ReaderView, data: Seq<char>)
    requires
        !p.done,
        p.error is None,
        p.pending == seq![data],
        json_error(data) is None,
    ensures
        closed(p).stream == applied(p.stream, event_of(data)).state,
        closed(p).error == applied(p.stream, event_of(data)).error,
{
    assert(joined(seq![data], "\n"@) == data);
}

/// Data that is not JSON ends the stream with an error.
pub proof fn law_broken_data_ends_the_stream(p: ReaderView)
    requires
        !p.done,
        p.error is None,
        p.pending.len() > 0,
        joined(p.pending, "\n"@) != "[DONE]"@,
        json_error(joined(p.pending, "\n"@)) is Some,
    ensures
        line_taken(p, Seq::empty()).error is Some,
        line_taken(p, Seq::empty()).stream == p.stream,
        closed(p).error is Some,
{
}

/// The lines of a stream are taken up one after the other, and what they come to
/// is the error that stopped it, or else what the stream amounts to.
pub proof fn law_a_stream_is_its_lines(all: Seq<Seq<char>>, line: Seq<char>, p: ReaderView)
    ensures
        lines_taken(p, Seq::empty()) == p,
        lines_taken(p, all.push(line)) == line_taken(lines_taken(p, all), line),
        closed(lines_taken(fresh_reader(), all)).error is Some ==> stream_outcome(all) is Err,
        closed(lines_taken(fresh_reader(), all)).error is None ==> stream_outcome(all) == outcome(
            closed(lines_taken(fresh_reader(), all)).stream,
        ),
        fresh_reader().stream == fresh_stream(),
        fresh_stream().output_text.len() == 0,
        fresh_stream().function_name is None,
        !fresh_stream().completed,
        p.pending.len() == 0 ==> closed(p) == p,
{
    assert(all.push(line).drop_last() =~= all);
}

/// An answer without a fence is its own text; the program of an answer with a
/// closed fence is what stands between the marks, without white space at its
/// ends.
pub proof fn law_a_fenced_program_is_taken_out(
    lead: Seq<char>,
    marker: Seq<char>,
    body: Seq<char>,
    tail: Seq<char>,
    content: Seq<char>,
)
    requires
        marker == "```javascript"@ || marker == "```js"@ || marker == "```ptc"@,
        content == lead + marker + seq!['\n'] + body + "```"@ + tail,
        forall|i: int|
            0 <= i < lead.len() ==> !occurs_at(content, "```javascript"@, i) && !occurs_at(
                content,
                "```js"@,
                i,
            ) && !occurs_at(content, "```ptc"@, i),
        marker != "```javascript"@ ==> first_index(content, "```javascript"@, 0) is None,
        marker == "```ptc"@ ==> first_index(content, "```js"@, 0) is None,
        forall|i: int|
            lead.len() + marker.len() < i < lead.len() + marker.len() + 1 + body.len()
                ==> !occurs_at(content, "```"@, i),
    ensures
        answered(content) == Answer::Program(trimmed(body)),
{
    reveal_strlit("```");
    reveal_strlit("```javascript");
    reveal_strlit("```js");
    reveal_strlit("```ptc");
    let s = lead.len() as int;
    let m = marker.len() as int;
    assert(content.subrange(s, s + m) =~= marker);
    assert(occurs_at(content, marker, s));
    lemma_first_index(content, marker, 0);
    assert(first_index(content, marker, 0) == Some(s));
    let b = s + m + 1;
    assert(content[s + m] == '\n');
    let e = b + body.len();
    assert(content.subrange(e, e + 3) =~= "```"@);
    assert(occurs_at(content, "```"@, e));
    lemma_first_index(content, "```"@, b);
    assert(first_index(content, "```"@, b) == Some(e));
    assert(content.subrange(b, e) =~= body);
    assert(fenced(content, marker) == Some(trimmed(body)));
}

/// Without a fence an answer is text, and so is it where the fence is not closed.
pub proof fn law_an_answer_without_a_fence_is_text(content: Seq<char>)
    requires
        !contains(content, "```"@),
    ensures
        answered(content) == Answer::Text(trimmed(content)),
{
    lemma_no_fence(content, "```javascript"@);
    lemma_no_fence(content, "```js"@);
    lemma_no_fence(content, "```ptc"@);
}

proof fn lemma_no_fence(content: Seq<char>, marker: Seq<char>)
    requires
        !contains(content, "```"@),
        marker == "```javascript"@ || marker == "```js"@ || marker == "```ptc"@,
    ensures
        first_index(content, marker, 0) is None,
{
    reveal_strlit("```");
    reveal_strlit("```javascript");
    reveal_strlit("```js");
    reveal_strlit("```ptc");
    lemma_first_index(content, marker, 0);
    match first_index(content, marker, 0) {
        Some(i) => {
            let found = content.subrange(i, i + marker.len());
            assert(found[0] == marker[0] && found[1] == marker[1] && found[2] == marker[2]);
            assert(content.subrange(i, i + 3) =~= "```"@);
            assert(occurs_at(content, "```"@, i));
        },
        None => {},
    }
}

/// Text is not run; a program is run as it is; a call is run as a program that
/// calls the tool by its name, with its arguments.
pub proof fn law_what_is_run_of_an_answer(output: ModelOutput)
    ensures
        output is Text ==> lowered(output) is None,
        output matches ModelOutput::Program { source, .. } ==> lowered(output) == Some(source@),
        output matches ModelOutput::FunctionCall { name, arguments } ==> (lowered(output) matches
            Some(program) && contains(program, quoted(name@)) && contains(
            program,
            arguments.compact(),
        )),
{
    match output {
        ModelOutput::FunctionCall { name, arguments } => {
            let a = "return tool("@;
            let b = a + quoted(name@);
            let c = b + ", "@;
            let d = c + arguments.compact();
            lemma_in_sum(a, quoted(name@));
            lemma_in_sum(b, ", "@);
            lemma_in_sum(c, arguments.compact());
            lemma_in_sum(d, ");"@);
            lemma_shows(c, b, quoted(name@));
            lemma_shows(d, c, quoted(name@));
            lemma_shows(d + ");"@, d, quoted(name@));
            lemma_shows(d + ");"@, d, arguments.compact());
        },
        _ => {},
    }
}

/// A request holds the whole compiled context and the name of the model.
pub proof fn law_a_request_holds_the_context(provider: OpenAiResponses, context: CompiledContext)
    ensures
        contains(provider.body(context), quoted(context.rendered())),
        contains(provider.body(context), quoted(provider.model@)),
{
    let rest =
        ",\"reasoning\":{\"summary\":\"auto\"},\"store\":false,\"stream\":true,\"tool_choice\":\"auto\",\"tools\":"@;
    let tools = crate::model::TOOL_DEFINITIONS@;
    let input = quoted(context.rendered());
    let model = quoted(provider.model@);
    let a = "{\"input\":"@ + input;
    let b = a + ",\"model\":"@;
    let c = b + model;
    let d = c + rest;
    let e = d + tools;
    lemma_in_sum("{\"input\":"@, input);
    lemma_in_sum(a, ",\"model\":"@);
    lemma_in_sum(b, model);
    lemma_in_sum(c, rest);
    lemma_in_sum(d, tools);
    lemma_in_sum(e, "}"@);
    lemma_shows(b, a, input);
    lemma_shows(c, b, input);
    lemma_shows(d, c, input);
    lemma_shows(e, d, input);
    lemma_shows(e + "}"@, e, input);
    lemma_shows(d, c, model);
    lemma_shows(e, d, model);
    lemma_shows(e + "}"@, e, model);
}

/// An address loses the slashes at its end, all of them, and nothing else.
pub proof fn law_only_slashes_are_taken_off(s: Seq<char>)
    ensures
        without_trailing_slashes(s).len() > 0 ==> without_trailing_slashes(s).last() != '/',
        without_trailing_slashes(s).is_prefix_of(s),
        forall|i: int|
            without_trailing_slashes(s).len() <= i < s.len() ==> #[trigger] s[i] == '/',
    decreases s.len(),
{
    if s.len() > 0 && s.last() == '/' {
        law_only_slashes_are_taken_off(s.drop_last());
        let t = without_trailing_slashes(s);
        assert(t =~= s.subrange(0, t.len() as int));
        assert forall|i: int| t.len() <= i < s.len() implies #[trigger] s[i] == '/' by {
            if i < s.len() - 1 {
                assert(s.drop_last()[i] == s[i]);
            }
        }
    } else {
        assert(s =~= s.subrange(0, s.len() as int));
    }
}

/// A request stops where someone asked for it: the user's interrupt is the
/// reason before any other, and where nobody asked there is none.
pub proof fn law_a_request_stops_for_a_reason(stop: GenerationStop)
    ensures
        stop.user_interrupted <==> stop.why() == Some(GenerationStopReason::UserInterrupt),
        stop.superseded && !stop.user_interrupted <==> stop.why() == Some(
            GenerationStopReason::Superseded,
        ),
        stop.why() is None <==> !stop.user_interrupted && !stop.superseded,
{
}

/// A request may take as long as was set; without a number five minutes.
pub proof fn law_a_request_takes_as_long_as_is_set(n: nat, s: Seq<char>)
    requires
        n <= u64::MAX,
    ensures
        timeout_of(Some(decimal(n))) == n,
        timeout_of(None) == 300,
        number_of(s) is Err ==> timeout_of(Some(s)) == 300,
{
    crate::laws::texts::law_a_written_number_is_read_back(n, s, 0);
}

/// An event of the stream is read from the places of its document.
pub proof fn law_an_event_is_read_from_its_places(data: Seq<char>, k: int, j: int, n: usize, m: usize)
    ensures
        event_of(data).kind == json_string(data, "/type"@),
        event_of(data).delta == json_string(data, "/delta"@),
        event_of(data).message == json_string(data, "/message"@),
        event_of(data).name == json_string(data, "/name"@),
        event_of(data).arguments == json_string(data, "/arguments"@),
        event_of(data).response_id == json_string(data, "/response/id"@),
        event_of(data).error_message == json_string(data, "/response/error/message"@),
        event_of(data).item_kind == json_string(data, "/item/type"@),
        event_of(data).item_name == json_string(data, "/item/name"@),
        event_of(data).item_arguments == json_string(data, "/item/arguments"@),
        json_array_len(data, "/response/output"@) is None ==> event_of(data).output is None,
        json_array_len(data, "/response/output"@) == Some(n) ==> (event_of(data).output matches
            Some(items) && items.len() == n),
        json_array_len(data, "/response/output"@) == Some(n) && 0 <= k < n ==> {
            let place = "/response/output/"@ + decimal(k as nat);
            let item = event_of(data).output->0[k];
            &&& item.kind == json_string(data, place + "/type"@)
            &&& item.name == json_string(data, place + "/name"@)
            &&& item.arguments == json_string(data, place + "/arguments"@)
            &&& json_array_len(data, place + "/content"@) == Some(m) && 0 <= j < m ==> {
                let part = item.content->0[j];
                &&& item.content is Some
                &&& item.content->0.len() == m
                &&& part.kind == json_string(
                    data,
                    place + "/content/"@ + decimal(j as nat) + "/type"@,
                )
                &&& part.text == json_string(
                    data,
                    place + "/content/"@ + decimal(j as nat) + "/text"@,
                )
            }
        },
{
}

/// What comes back is the answer that the stream amounts to, or a breach of
/// protocol with its message.
pub proof fn law_what_comes_back_is_the_outcome(
    answer: Answer,
    message: Seq<char>,
    r: Result<ModelOutput, ModelError>,
)
    ensures
        is_outcome(Ok(answer), r) ==> (r matches Ok(output) && match output {
            ModelOutput::Text(s) => answer == Answer::Text(s@),
            ModelOutput::Program { source, .. } => answer == Answer::Program(source@),
            ModelOutput::FunctionCall { name, arguments } => answer == Answer::FunctionCall(
                name@,
                arguments.text@,
            ),
        }),
        is_outcome(Err(message), r) ==> (r matches Err(ModelError::Protocol(said)) && said@
            == message),
{
}

} // verus!
