//! Model adapter: what a provider's event stream says, and how its output is
//! lowered into programs.
use vstd::prelude::*;
use vstd::string::StringExecFns;
use crate::context::CompiledContext;
use crate::identity::copy_text;
use crate::json::{array_len_at, json_array_len, json_error, json_string, parse_error, quote, quoted, string_at, Json};
use crate::text::{decimal, find_from, first_index, from_chars, has_prefix, is_blank, join, joined, lines, lines_text, matches_at, number_of, opt_view, parse_u64, same, size_text, text, to_chars, trim, trim_start, trimmed, views};

verus! {

/// The language of a program.
#[derive(Clone, Copy, Debug, PartialEq, Eq, Structural)]
pub enum ProgramLanguage {
    JavaScript,
}

/// What the model answered.
#[derive(Clone, Debug, PartialEq, Eq)]
pub enum ModelOutput {
    Text(String),
    Program { language: ProgramLanguage, source: String },
    FunctionCall { name: String, arguments: Json },
}

/// An answer as plain values.
#[verifier::ext_equal]
pub enum Answer {
    Text(Seq<char>),
    Program(Seq<char>),
    FunctionCall(Seq<char>, Seq<char>),
}

impl View for ModelOutput {
    type V = Answer;

    open spec fn view(&self) -> Answer {
        match *self {
            ModelOutput::Text(s) => Answer::Text(s@),
            ModelOutput::Program { source, .. } => Answer::Program(source@),
            ModelOutput::FunctionCall { name, arguments } => Answer::FunctionCall(
                name@,
                arguments.text@,
            ),
        }
    }
}

/// What is told while the model answers.
#[derive(Clone, Debug, PartialEq, Eq)]
pub enum ModelEvent {
    RequestStarted { endpoint: String },
    ResponseCreated { id: String },
    ReasoningSummaryDelta(String),
    ReasoningSummaryDone,
    OutputTextDelta(String),
    FunctionCall { name: String },
    ResponseCompleted { id: Option<String> },
}

/// What is told, as plain values.
#[verifier::ext_equal]
pub enum Told {
    RequestStarted(Seq<char>),
    ResponseCreated(Seq<char>),
    ReasoningSummaryDelta(Seq<char>),
    ReasoningSummaryDone,
    OutputTextDelta(Seq<char>),
    FunctionCall(Seq<char>),
    ResponseCompleted(Option<Seq<char>>),
}

impl View for ModelEvent {
    type V = Told;

    open spec fn view(&self) -> Told {
        match *self {
            ModelEvent::RequestStarted { endpoint } => Told::RequestStarted(endpoint@),
            ModelEvent::ResponseCreated { id } => Told::ResponseCreated(id@),
            ModelEvent::ReasoningSummaryDelta(s) => Told::ReasoningSummaryDelta(s@),
            ModelEvent::ReasoningSummaryDone => Told::ReasoningSummaryDone,
            ModelEvent::OutputTextDelta(s) => Told::OutputTextDelta(s@),
            ModelEvent::FunctionCall { name } => Told::FunctionCall(name@),
            ModelEvent::ResponseCompleted { id } => Told::ResponseCompleted(opt_view(id)),
        }
    }
}

/// What was told, as plain values.
pub open spec fn told_of(events: Seq<ModelEvent>) -> Seq<Told> {
    events.map_values(|e: ModelEvent| e@)
}

fn tell(events: &mut Vec<ModelEvent>, event: ModelEvent)
    ensures
        told_of(final(events)@) == told_of(old(events)@) + seq![event@],
{
    let ghost before = events@;
    events.push(event);
    proof {
        assert(told_of(events@) =~= told_of(before) + seq![event@]);
    }
}

/// Why a request stops before it is answered.
#[derive(Clone, Copy, Debug, PartialEq, Eq, Structural)]
pub enum GenerationStopReason {
    UserInterrupt,
    Superseded,
}

/// Whether a running request should stop.
#[derive(Clone, Copy, Debug, PartialEq, Eq, Structural)]
pub struct GenerationStop {
    pub user_interrupted: bool,
    pub superseded: bool,
}

impl GenerationStop {
    /// The reason to stop; an interrupt of the user comes first.
    pub open spec fn why(self) -> Option<GenerationStopReason> {
        if self.user_interrupted {
            Some(GenerationStopReason::UserInterrupt)
        } else if self.superseded {
            Some(GenerationStopReason::Superseded)
        } else {
            None
        }
    }

    /// A request that was not superseded.
    pub fn new(user_interrupted: bool) -> (r: GenerationStop)
        ensures
            r.user_interrupted == user_interrupted,
            !r.superseded,
    {
        GenerationStop { user_interrupted, superseded: false }
    }

    /// Asks the request to stop. A reason, once given, stands.
    pub fn stop(&mut self, reason: GenerationStopReason)
        ensures
            final(self).user_interrupted == (old(self).user_interrupted
                || reason is UserInterrupt),
            final(self).superseded == (old(self).superseded || reason is Superseded),
    {
        match reason {
            GenerationStopReason::UserInterrupt => {
                self.user_interrupted = true;
            },
            GenerationStopReason::Superseded => {
                self.superseded = true;
            },
        }
    }

    /// The reason to stop, where there is one; an interrupt of the user comes
    /// first.
    pub fn reason(&self) -> (r: Option<GenerationStopReason>)
        ensures
            r == self.why(),
    {
        if self.user_interrupted {
            Some(GenerationStopReason::UserInterrupt)
        } else if self.superseded {
            Some(GenerationStopReason::Superseded)
        } else {
            None
        }
    }
}

/// Why a request was not answered.
#[derive(Clone, Debug, PartialEq, Eq)]
pub enum ModelError {
    Stopped(GenerationStopReason),
    Transport(String),
    Protocol(String),
}

/// A failure as plain values.
#[verifier::ext_equal]
pub enum Fault {
    Stopped(GenerationStopReason),
    Transport(Seq<char>),
    Protocol(Seq<char>),
}

impl View for ModelError {
    type V = Fault;

    open spec fn view(&self) -> Fault {
        match *self {
            ModelError::Stopped(reason) => Fault::Stopped(reason),
            ModelError::Transport(s) => Fault::Transport(s@),
            ModelError::Protocol(s) => Fault::Protocol(s@),
        }
    }
}

impl Fault {
    /// The message of the failure.
    pub open spec fn text(self) -> Seq<char> {
        match self {
            Fault::Stopped(GenerationStopReason::UserInterrupt) => "model request interrupted"@,
            Fault::Stopped(GenerationStopReason::Superseded) => "model request superseded"@,
            Fault::Transport(s) => "model transport error: "@ + s,
            Fault::Protocol(s) => "model protocol error: "@ + s,
        }
    }
}

impl ModelError {
    /// The message of the error.
    pub fn message(&self) -> (r: String)
        ensures
            r@ == self@.text(),
    {
        match self {
            ModelError::Stopped(reason) => match reason {
                GenerationStopReason::UserInterrupt => text("model request interrupted"),
                GenerationStopReason::Superseded => text("model request superseded"),
            },
            ModelError::Transport(error) => {
                let mut s = text("model transport error: ");
                s.append(error.as_str());
                s
            },
            ModelError::Protocol(error) => {
                let mut s = text("model protocol error: ");
                s.append(error.as_str());
                s
            },
        }
    }
}

/// A model: it answers a compiled context and tells of its progress.
pub trait Model {
    fn generate(
        &self,
        context: &CompiledContext,
        stop: &GenerationStop,
        events: &mut Vec<ModelEvent>,
    ) -> Result<ModelOutput, ModelError>;
}

/// A provider with a Responses interface.
#[derive(Clone, Debug, PartialEq, Eq)]
pub struct OpenAiResponses {
    pub base_url: String,
    pub api_key: String,
    pub model: String,
    pub request_timeout_secs: u64,
}

/// The one function that the provider may call: a program to run.
pub const TOOL_DEFINITIONS: &'static str = r#"[{"description":"Execute one bounded synchronous JavaScript Programmatic Tool Calling program inside the workspace sandbox. The program may call tool, read, write, edit, glob, grep, exec, batch(name, args[]) for procedural parallel host calls, goal(update) to record durable task state that survives a context rollover, finish({summary, unresolved?, evidence?, force?}) to explicitly complete the task, agent_spawn/agent_poll/agent_join/agent_cancel/agent_send/agent_list for asynchronous delegated workers, delegate({task, access|profile, context?}) or delegate_batch(options[]) for spawn-then-join reasoning, integrate(workspace) for explicit isolated change integration, process_spawn/process_poll/process_tail/process_wait/process_kill/process_write/process_list for long-lived background processes, evidence(kind, ok, metadata?) to record verification, checkpoint() to capture the current workspace revision, and restore(checkpoint) to explicitly restore one. Plain text is a progress message and never completes the task; only an accepted finish() does. Return only compact evidence needed for the next inference; result handles expose id, length, totalBytes, truncated, kind, and bounded read/head/tail/grep/json methods.","name":"ptc","parameters":{"additionalProperties":false,"properties":{"source":{"description":"A complete synchronous PTC JavaScript program with a top-level return statement.","type":"string"}},"required":["source"],"type":"object"},"strict":true,"type":"function"}]"#;

/// The text without the slashes at its end.
pub open spec fn without_trailing_slashes(s: Seq<char>) -> Seq<char>
    decreases s.len(),
{
    if s.len() > 0 && s.last() == '/' {
        without_trailing_slashes(s.drop_last())
    } else {
        s
    }
}

/// The functions offered to the provider, as JSON.
pub fn tool_definitions() -> (r: Json)
    ensures
        r.text@ == TOOL_DEFINITIONS@,
{
    Json { text: text(TOOL_DEFINITIONS) }
}

/// How long a request may take: what is set, where that is a number.
pub open spec fn timeout_of(secs: Option<Seq<char>>) -> nat {
    match secs {
        Some(s) => match number_of(s) {
            Ok(n) => n,
            Err(_) => 300,
        },
        None => 300,
    }
}

impl OpenAiResponses {
    /// The configuration that the environment gives. The key of the runtime
    /// comes before the provider's own; without either there is none.
    pub fn from_env(
        runtime_key: Option<String>,
        provider_key: Option<String>,
        base_url: Option<String>,
        model: Option<String>,
        timeout_secs: Option<String>,
    ) -> (r: Result<OpenAiResponses, ModelError>)
        ensures
            match r {
                Ok(config) => {
                    &&& match (runtime_key, provider_key) {
                        (Some(key), _) => config.api_key == key,
                        (None, Some(key)) => config.api_key == key,
                        (None, None) => false,
                    }
                    &&& config.base_url@ == match base_url {
                        Some(url) => url@,
                        None => "https://api.openai.com/v1"@,
                    }
                    &&& config.model@ == match model {
                        Some(name) => name@,
                        None => "gpt-4.1-mini"@,
                    }
                    &&& config.request_timeout_secs == timeout_of(opt_view(timeout_secs))
                },
                Err(error) => {
                    &&& runtime_key is None
                    &&& provider_key is None
                    &&& error@ == Fault::Protocol(
                        "set MH_API_KEY (or OPENAI_API_KEY) before running the agent"@,
                    )
                },
            },
    {
        let api_key = match runtime_key {
            Some(key) => key,
            None => match provider_key {
                Some(key) => key,
                None => {
                    return Err(
                        ModelError::Protocol(
                            text("set MH_API_KEY (or OPENAI_API_KEY) before running the agent"),
                        ),
                    );
                },
            },
        };
        let base_url = match base_url {
            Some(url) => url,
            None => text("https://api.openai.com/v1"),
        };
        let model = match model {
            Some(name) => name,
            None => text("gpt-4.1-mini"),
        };
        let request_timeout_secs: u64 = match timeout_secs {
            Some(secs) => match parse_u64(secs.as_str()) {
                Ok(n) => n,
                Err(_) => 300,
            },
            None => 300,
        };
        Ok(OpenAiResponses { base_url, api_key, model, request_timeout_secs })
    }

    /// The address requests are sent to.
    pub fn endpoint(&self) -> (r: String)
        ensures
            r@ == without_trailing_slashes(self.base_url@) + "/responses"@,
    {
        let chars = to_chars(self.base_url.as_str());
        let mut n: usize = chars.len();
        let ghost url = self.base_url@;
        proof {
            assert(url.take(n as int) =~= url);
        }
        while n > 0 && chars[n - 1] == '/'
            invariant
                chars@ == url,
                n <= chars.len(),
                without_trailing_slashes(url) == without_trailing_slashes(url.take(n as int)),
            decreases n,
        {
            proof {
                assert(url.take(n as int).drop_last() =~= url.take(n - 1));
            }
            n = n - 1;
        }
        proof {
            assert(url.subrange(0, n as int) =~= url.take(n as int));
        }
        let mut s = from_chars(&chars, 0, n);
        s.append("/responses");
        s
    }

    /// The body of a request, as JSON.
    pub open spec fn body(self, context: CompiledContext) -> Seq<char> {
        "{\"input\":"@ + quoted(context.rendered()) + ",\"model\":"@ + quoted(self.model@)
            + ",\"reasoning\":{\"summary\":\"auto\"},\"store\":false,\"stream\":true,\"tool_choice\":\"auto\",\"tools\":"@
            + TOOL_DEFINITIONS@ + "}"@
    }

    /// The body of a request, as JSON.
    pub fn request_body(&self, context: &CompiledContext) -> (r: Json)
        ensures
            r.text@ == self.body(*context),
    {
        let mut s = text("{\"input\":");
        s.append(quote(context.render().as_str()).as_str());
        s.append(",\"model\":");
        s.append(quote(self.model.as_str()).as_str());
        s.append(
            ",\"reasoning\":{\"summary\":\"auto\"},\"store\":false,\"stream\":true,\"tool_choice\":\"auto\",\"tools\":",
        );
        s.append(TOOL_DEFINITIONS);
        s.append("}");
        Json { text: s }
    }
}

/// One part of a message of the provider.
#[derive(Clone, Debug, PartialEq, Eq)]
pub struct ContentPart {
    pub kind: Option<String>,
    pub text: Option<String>,
}

/// One item of a completed response.
#[derive(Clone, Debug, PartialEq, Eq)]
pub struct OutputItem {
    pub kind: Option<String>,
    pub name: Option<String>,
    pub arguments: Option<String>,
    pub content: Option<Vec<ContentPart>>,
}

/// What is read of one event of the stream.
#[derive(Clone, Debug, PartialEq, Eq)]
pub struct StreamEvent {
    pub kind: Option<String>,
    pub delta: Option<String>,
    pub message: Option<String>,
    pub name: Option<String>,
    pub arguments: Option<String>,
    pub response_id: Option<String>,
    pub error_message: Option<String>,
    pub item_kind: Option<String>,
    pub item_name: Option<String>,
    pub item_arguments: Option<String>,
    pub output: Option<Vec<OutputItem>>,
}

/// A content part as plain values.
#[verifier::ext_equal]
pub struct PartView {
    pub kind: Option<Seq<char>>,
    pub text: Option<Seq<char>>,
}

/// An output item as plain values.
#[verifier::ext_equal]
pub struct OutputView {
    pub kind: Option<Seq<char>>,
    pub name: Option<Seq<char>>,
    pub arguments: Option<Seq<char>>,
    pub content: Option<Seq<PartView>>,
}

/// An event of the stream as plain values.
#[verifier::ext_equal]
pub struct EventView {
    pub kind: Option<Seq<char>>,
    pub delta: Option<Seq<char>>,
    pub message: Option<Seq<char>>,
    pub name: Option<Seq<char>>,
    pub arguments: Option<Seq<char>>,
    pub response_id: Option<Seq<char>>,
    pub error_message: Option<Seq<char>>,
    pub item_kind: Option<Seq<char>>,
    pub item_name: Option<Seq<char>>,
    pub item_arguments: Option<Seq<char>>,
    pub output: Option<Seq<OutputView>>,
}

impl View for ContentPart {
    type V = PartView;

    open spec fn view(&self) -> PartView {
        PartView { kind: opt_view(self.kind), text: opt_view(self.text) }
    }
}

/// Content parts as plain values.
pub open spec fn part_views(parts: Seq<ContentPart>) -> Seq<PartView> {
    parts.map_values(|p: ContentPart| p@)
}

impl View for OutputItem {
    type V = OutputView;

    open spec fn view(&self) -> OutputView {
        OutputView {
            kind: opt_view(self.kind),
            name: opt_view(self.name),
            arguments: opt_view(self.arguments),
            content: match self.content {
                Some(parts) => Some(part_views(parts@)),
                None => None,
            },
        }
    }
}

/// Output items as plain values.
pub open spec fn output_views(items: Seq<OutputItem>) -> Seq<OutputView> {
    items.map_values(|i: OutputItem| i@)
}

impl View for StreamEvent {
    type V = EventView;

    open spec fn view(&self) -> EventView {
        EventView {
            kind: opt_view(self.kind),
            delta: opt_view(self.delta),
            message: opt_view(self.message),
            name: opt_view(self.name),
            arguments: opt_view(self.arguments),
            response_id: opt_view(self.response_id),
            error_message: opt_view(self.error_message),
            item_kind: opt_view(self.item_kind),
            item_name: opt_view(self.item_name),
            item_arguments: opt_view(self.item_arguments),
            output: match self.output {
                Some(items) => Some(output_views(items@)),
                None => None,
            },
        }
    }
}

/// The content part at a place of a document.
pub open spec fn part_at(data: Seq<char>, place: Seq<char>) -> PartView {
    PartView {
        kind: json_string(data, place + "/type"@),
        text: json_string(data, place + "/text"@),
    }
}

/// The place of part `j` of the item at `place`.
pub open spec fn part_place(place: Seq<char>, j: int) -> Seq<char> {
    place + "/content/"@ + decimal(j as nat)
}

/// The parts of the item at a place of a document.
pub open spec fn parts_at(data: Seq<char>, place: Seq<char>) -> Option<Seq<PartView>> {
    match json_array_len(data, place + "/content"@) {
        Some(n) => Some(Seq::new(n as nat, |j: int| part_at(data, part_place(place, j)))),
        None => None,
    }
}

/// The output item at a place of a document.
pub open spec fn output_at(data: Seq<char>, place: Seq<char>) -> OutputView {
    OutputView {
        kind: json_string(data, place + "/type"@),
        name: json_string(data, place + "/name"@),
        arguments: json_string(data, place + "/arguments"@),
        content: parts_at(data, place),
    }
}

/// The place of output item `k`.
pub open spec fn output_place(k: int) -> Seq<char> {
    "/response/output/"@ + decimal(k as nat)
}

/// The output items of a document.
pub open spec fn outputs_of(data: Seq<char>) -> Option<Seq<OutputView>> {
    match json_array_len(data, "/response/output"@) {
        Some(n) => Some(Seq::new(n as nat, |k: int| output_at(data, output_place(k)))),
        None => None,
    }
}

/// What is read of a document.
pub open spec fn event_of(data: Seq<char>) -> EventView {
    EventView {
        kind: json_string(data, "/type"@),
        delta: json_string(data, "/delta"@),
        message: json_string(data, "/message"@),
        name: json_string(data, "/name"@),
        arguments: json_string(data, "/arguments"@),
        response_id: json_string(data, "/response/id"@),
        error_message: json_string(data, "/response/error/message"@),
        item_kind: json_string(data, "/item/type"@),
        item_name: json_string(data, "/item/name"@),
        item_arguments: json_string(data, "/item/arguments"@),
        output: outputs_of(data),
    }
}

fn string_below(data: &str, place: &String, tail: &str) -> (r: Option<String>)
    ensures
        opt_view(r) == json_string(data@, place@ + tail@),
{
    let mut pointer = place.clone();
    pointer.append(tail);
    string_at(data, pointer.as_str())
}

fn read_parts(data: &str, place: &String) -> (r: Option<Vec<ContentPart>>)
    ensures
        match r {
            Some(parts) => parts_at(data@, place@) == Some(part_views(parts@)),
            None => parts_at(data@, place@) is None,
        },
{
    let mut pointer = place.clone();
    pointer.append("/content");
    match array_len_at(data, pointer.as_str()) {
        Some(n) => {
            let mut parts: Vec<ContentPart> = Vec::new();
            let ghost all = parts_at(data@, place@)->0;
            let mut j: usize = 0;
            while j < n
                invariant
                    j <= n,
                    parts_at(data@, place@) == Some(all),
                    all == Seq::new(n as nat, |j: int| part_at(data@, part_place(place@, j))),
                    part_views(parts@) == all.take(j as int),
                decreases n - j,
            {
                let mut part_pointer = place.clone();
                part_pointer.append("/content/");
                part_pointer.append(size_text(j).as_str());
                let part = ContentPart {
                    kind: string_below(data, &part_pointer, "/type"),
                    text: string_below(data, &part_pointer, "/text"),
                };
                let ghost before = parts@;
                parts.push(part);
                proof {
                    assert(part@ == all[j as int]);
                    assert(part_views(parts@) =~= part_views(before).push(part@));
                    assert(all.take(j + 1) =~= all.take(j as int).push(all[j as int]));
                }
                j = j + 1;
            }
            proof {
                assert(all.take(n as int) =~= all);
            }
            Some(parts)
        },
        None => None,
    }
}

fn read_outputs(data: &str) -> (r: Option<Vec<OutputItem>>)
    ensures
        match r {
            Some(items) => outputs_of(data@) == Some(output_views(items@)),
            None => outputs_of(data@) is None,
        },
{
    match array_len_at(data, "/response/output") {
        Some(n) => {
            let mut items: Vec<OutputItem> = Vec::new();
            let ghost all = outputs_of(data@)->0;
            let mut k: usize = 0;
            while k < n
                invariant
                    k <= n,
                    outputs_of(data@) == Some(all),
                    all == Seq::new(n as nat, |k: int| output_at(data@, output_place(k))),
                    output_views(items@) == all.take(k as int),
                decreases n - k,
            {
                let mut place = text("/response/output/");
                place.append(size_text(k).as_str());
                let item = OutputItem {
                    kind: string_below(data, &place, "/type"),
                    name: string_below(data, &place, "/name"),
                    arguments: string_below(data, &place, "/arguments"),
                    content: read_parts(data, &place),
                };
                let ghost before = items@;
                items.push(item);
                proof {
                    assert(item@ == all[k as int]);
                    assert(output_views(items@) =~= output_views(before).push(item@));
                    assert(all.take(k + 1) =~= all.take(k as int).push(all[k as int]));
                }
                k = k + 1;
            }
            proof {
                assert(all.take(n as int) =~= all);
            }
            Some(items)
        },
        None => None,
    }
}

/// Reads one event of the stream. A document that is not JSON is refused with
/// the message of the JSON library.
pub fn read_event(data: &str) -> (r: Result<StreamEvent, String>)
    ensures
        match r {
            Ok(event) => json_error(data@) is None && event@ == event_of(data@),
            Err(message) => json_error(data@) == Some(message@),
        },
{
    match parse_error(data) {
        Some(message) => Err(message),
        None => Ok(
            StreamEvent {
                kind: string_at(data, "/type"),
                delta: string_at(data, "/delta"),
                message: string_at(data, "/message"),
                name: string_at(data, "/name"),
                arguments: string_at(data, "/arguments"),
                response_id: string_at(data, "/response/id"),
                error_message: string_at(data, "/response/error/message"),
                item_kind: string_at(data, "/item/type"),
                item_name: string_at(data, "/item/name"),
                item_arguments: string_at(data, "/item/arguments"),
                output: read_outputs(data),
            },
        ),
    }
}

/// What the stream has said so far.
#[derive(Clone, Debug, PartialEq, Eq)]
pub struct ResponseStreamState {
    pub response_id: Option<String>,
    pub output_text: String,
    pub function_name: Option<String>,
    pub function_arguments: String,
    pub completed: bool,
}

/// What the stream has said so far, as plain values.
#[verifier::ext_equal]
pub struct StreamView {
    pub response_id: Option<Seq<char>>,
    pub output_text: Seq<char>,
    pub function_name: Option<Seq<char>>,
    pub function_arguments: Seq<char>,
    pub completed: bool,
}

impl View for ResponseStreamState {
    type V = StreamView;

    open spec fn view(&self) -> StreamView {
        StreamView {
            response_id: opt_view(self.response_id),
            output_text: self.output_text@,
            function_name: opt_view(self.function_name),
            function_arguments: self.function_arguments@,
            completed: self.completed,
        }
    }
}

/// What an event does: the new state, what is told, and the message where the
/// stream fails.
#[verifier::ext_equal]
pub struct Effect {
    pub state: StreamView,
    pub told: Seq<Told>,
    pub error: Option<Seq<char>>,
}

/// The text of the parts that are output text.
pub open spec fn text_of(parts: Seq<PartView>) -> Seq<char>
    decreases parts.len(),
{
    if parts.len() == 0 {
        Seq::empty()
    } else {
        let init = text_of(parts.drop_last());
        match parts.last().text {
            Some(s) => if parts.last().kind == Some("output_text"@) {
                init + s
            } else {
                init
            },
            None => init,
        }
    }
}

/// Takes up one item of a completed response: a function call where none is
/// known yet, a message where there is no text yet.
pub open spec fn item_taken(state: StreamView, item: OutputView) -> StreamView {
    if item.kind == Some("function_call"@) && state.function_name is None {
        StreamView {
            function_name: item.name,
            function_arguments: match item.arguments {
                Some(arguments) => arguments,
                None => "{}"@,
            },
            ..state
        }
    } else if item.kind == Some("message"@) && state.output_text.len() == 0 {
        match item.content {
            Some(parts) => StreamView { output_text: text_of(parts), ..state },
            None => state,
        }
    } else {
        state
    }
}

/// Takes up the items of a completed response, in order.
pub open spec fn items_taken(state: StreamView, items: Seq<OutputView>) -> StreamView
    decreases items.len(),
{
    if items.len() == 0 {
        state
    } else {
        item_taken(items_taken(state, items.drop_last()), items.last())
    }
}

/// Takes up the name of the called function; it is told where it is new.
pub open spec fn named(state: StreamView, name: Option<Seq<char>>) -> Effect {
    match name {
        Some(n) => Effect {
            state: StreamView { function_name: Some(n), ..state },
            told: if state.function_name == Some(n) {
                Seq::empty()
            } else {
                seq![Told::FunctionCall(n)]
            },
            error: None,
        },
        None => quiet(state),
    }
}

/// Nothing is told and nothing fails.
pub open spec fn quiet(state: StreamView) -> Effect {
    Effect { state, told: Seq::empty(), error: None }
}

/// The stream fails and nothing else changes.
pub open spec fn failing(state: StreamView, message: Seq<char>) -> Effect {
    Effect { state, told: Seq::empty(), error: Some(message) }
}

/// What an event of the stream does.
pub open spec fn applied(state: StreamView, event: EventView) -> Effect {
    match event.kind {
        None => failing(state, "Responses SSE event missing type"@),
        Some(kind) => if kind == "response.created"@ {
            match event.response_id {
                Some(id) => Effect {
                    state: StreamView { response_id: Some(id), ..state },
                    told: seq![Told::ResponseCreated(id)],
                    error: None,
                },
                None => quiet(state),
            }
        } else if kind == "response.reasoning_summary_text.delta"@ {
            match event.delta {
                Some(delta) => Effect {
                    state,
                    told: seq![Told::ReasoningSummaryDelta(delta)],
                    error: None,
                },
                None => quiet(state),
            }
        } else if kind == "response.reasoning_summary_text.done"@ {
            Effect { state, told: seq![Told::ReasoningSummaryDone], error: None }
        } else if kind == "response.output_text.delta"@ {
            match event.delta {
                Some(delta) => Effect {
                    state: StreamView { output_text: state.output_text + delta, ..state },
                    told: seq![Told::OutputTextDelta(delta)],
                    error: None,
                },
                None => quiet(state),
            }
        } else if kind == "response.output_item.added"@ || kind == "response.output_item.done"@ {
            if event.item_kind == Some("function_call"@) {
                let effect = named(state, event.item_name);
                match event.item_arguments {
                    Some(arguments) => if arguments.len() > 0 {
                        Effect {
                            state: StreamView { function_arguments: arguments, ..effect.state },
                            ..effect
                        }
                    } else {
                        effect
                    },
                    None => effect,
                }
            } else {
                quiet(state)
            }
        } else if kind == "response.function_call_arguments.done"@ {
            let effect = named(state, event.name);
            Effect {
                state: StreamView {
                    function_arguments: match event.arguments {
                        Some(arguments) => arguments,
                        None => "{}"@,
                    },
                    ..effect.state
                },
                ..effect
            }
        } else if kind == "response.completed"@ {
            let id = match state.response_id {
                Some(known) => Some(known),
                None => event.response_id,
            };
            let done = StreamView { completed: true, response_id: id, ..state };
            Effect {
                state: match event.output {
                    Some(items) => items_taken(done, items),
                    None => done,
                },
                told: seq![Told::ResponseCompleted(id)],
                error: None,
            }
        } else if kind == "response.failed"@ || kind == "response.incomplete"@ {
            failing(
                state,
                match event.error_message {
                    Some(message) => message,
                    None => kind,
                },
            )
        } else if kind == "error"@ {
            failing(
                state,
                match event.message {
                    Some(message) => message,
                    None => "Responses API stream error"@,
                },
            )
        } else {
            quiet(state)
        },
    }
}

/// What a finished stream amounts to.
pub open spec fn outcome(state: StreamView) -> Result<Answer, Seq<char>> {
    if !state.completed {
        Err("Responses stream ended before response.completed"@)
    } else {
        match state.function_name {
            Some(name) => match json_error(state.function_arguments) {
                Some(message) => Err("invalid function arguments: "@ + message),
                None => called(name, state.function_arguments),
            },
            None => if state.output_text.len() == 0 {
                Err("Responses stream completed without text or function call"@)
            } else {
                Ok(answered(state.output_text))
            },
        }
    }
}

/// What a function call amounts to: a call of `ptc` is its program, which may
/// not be blank; any other call stands for itself.
pub open spec fn called(name: Seq<char>, arguments: Seq<char>) -> Result<Answer, Seq<char>> {
    if name == "ptc"@ {
        match json_string(arguments, "/source"@) {
            Some(source) => if trimmed(source).len() == 0 {
                Err("ptc function call missing source"@)
            } else {
                Ok(Answer::Program(source))
            },
            None => Err("ptc function call missing source"@),
        }
    } else {
        Ok(Answer::FunctionCall(name, arguments))
    }
}

/// The program in the fence that `marker` opens, where the marker stands in the
/// text; nothing where the fence is not closed.
pub open spec fn fenced(content: Seq<char>, marker: Seq<char>) -> Option<Seq<char>> {
    match first_index(content, marker, 0) {
        Some(start) => {
            let after = start + marker.len();
            let body = if after < content.len() && content[after as int] == '\n' {
                after + 1
            } else {
                after as int
            };
            match first_index(content, "```"@, body as int) {
                Some(end) => Some(trimmed(content.subrange(body as int, end))),
                None => None,
            }
        },
        None => None,
    }
}

/// The program in the first kind of fence that the text opens.
pub open spec fn program_in(content: Seq<char>) -> Option<Seq<char>> {
    if first_index(content, "```javascript"@, 0) is Some {
        fenced(content, "```javascript"@)
    } else if first_index(content, "```js"@, 0) is Some {
        fenced(content, "```js"@)
    } else {
        fenced(content, "```ptc"@)
    }
}

/// What a text answer amounts to: the program in its fence, else the text
/// without white space at its ends.
pub open spec fn answered(content: Seq<char>) -> Answer {
    match program_in(content) {
        Some(source) => Answer::Program(source),
        None => Answer::Text(trimmed(content)),
    }
}

/// Whether an optional string is the given text.
fn is_text(value: &Option<String>, expected: &str) -> (r: bool)
    ensures
        r == (opt_view(*value) == Some(expected@)),
{
    match value {
        Some(s) => same(s.as_str(), expected),
        None => false,
    }
}

fn join_parts(parts: &Vec<ContentPart>) -> (r: String)
    ensures
        r@ == text_of(part_views(parts@)),
{
    let mut out = String::new();
    let ghost all = part_views(parts@);
    let mut i: usize = 0;
    while i < parts.len()
        invariant
            i <= parts.len(),
            all == part_views(parts@),
            out@ == text_of(all.take(i as int)),
        decreases parts.len() - i,
    {
        proof {
            assert(all.take(i + 1).drop_last() =~= all.take(i as int));
            assert(all.take(i + 1).last() == parts@[i as int]@);
        }
        if is_text(&parts[i].kind, "output_text") {
            match &parts[i].text {
                Some(s) => out.append(s.as_str()),
                None => {},
            }
        }
        i = i + 1;
    }
    proof {
        assert(all.take(i as int) =~= all);
    }
    out
}

impl Default for ResponseStreamState {
    fn default() -> (r: ResponseStreamState)
        ensures
            r@ == fresh_stream(),
    {
        ResponseStreamState {
            response_id: None,
            output_text: String::new(),
            function_name: None,
            function_arguments: String::new(),
            completed: false,
        }
    }
}

/// The state before anything was said.
pub open spec fn fresh_stream() -> StreamView {
    StreamView {
        response_id: None,
        output_text: Seq::empty(),
        function_name: None,
        function_arguments: Seq::empty(),
        completed: false,
    }
}

/// The outcome of a call as plain values.
pub open spec fn fault_of<T>(r: Result<T, ModelError>) -> Option<Fault> {
    match r {
        Ok(_) => None,
        Err(error) => Some(error@),
    }
}

impl ResponseStreamState {
    fn take_name(&mut self, name: &Option<String>, events: &mut Vec<ModelEvent>)
        ensures
            final(self)@ == named(old(self)@, opt_view(*name)).state,
            told_of(final(events)@) == told_of(old(events)@) + named(
                old(self)@,
                opt_view(*name),
            ).told,
    {
        match name {
            Some(n) => {
                if !is_text(&self.function_name, n.as_str()) {
                    tell(events, ModelEvent::FunctionCall { name: n.clone() });
                } else {
                    proof {
                        assert(told_of(events@) + Seq::<Told>::empty() =~= told_of(events@));
                    }
                }
                self.function_name = Some(n.clone());
            },
            None => {
                proof {
                    assert(told_of(events@) + Seq::<Told>::empty() =~= told_of(events@));
                }
            },
        }
    }

    fn take_items(&mut self, items: &Vec<OutputItem>)
        ensures
            final(self)@ == items_taken(old(self)@, output_views(items@)),
    {
        let ghost start = self@;
        let ghost all = output_views(items@);
        let mut i: usize = 0;
        while i < items.len()
            invariant
                i <= items.len(),
                all == output_views(items@),
                self@ == items_taken(start, all.take(i as int)),
            decreases items.len() - i,
        {
            let item = &items[i];
            proof {
                assert(all.take(i + 1).drop_last() =~= all.take(i as int));
                assert(all.take(i + 1).last() == item@);
            }
            if is_text(&item.kind, "function_call") && self.function_name.is_none() {
                self.function_name = copy_text(&item.name);
                self.function_arguments = match &item.arguments {
                    Some(arguments) => arguments.clone(),
                    None => text("{}"),
                };
            } else if is_text(&item.kind, "message") && self.output_text.as_str().is_empty() {
                match &item.content {
                    Some(parts) => {
                        self.output_text = join_parts(parts);
                    },
                    None => {},
                }
            }
            i = i + 1;
        }
        proof {
            assert(all.take(i as int) =~= all);
        }
    }

    /// Takes up the output of a completed response, where it has any.
    pub fn read_completed_output(&mut self, event: &StreamEvent)
        ensures
            final(self)@ == match event@.output {
                Some(items) => items_taken(old(self)@, items),
                None => old(self)@,
            },
    {
        match &event.output {
            Some(items) => self.take_items(items),
            None => {},
        }
    }

    /// Takes up one event of the stream and tells what follows from it.
    pub fn apply_event(&mut self, event: &StreamEvent, events: &mut Vec<ModelEvent>) -> (r: Result<
        (),
        ModelError,
    >)
        ensures
            final(self)@ == applied(old(self)@, event@).state,
            told_of(final(events)@) == told_of(old(events)@) + applied(old(self)@, event@).told,
            fault_of(r) == match applied(old(self)@, event@).error {
                Some(message) => Some(Fault::Protocol(message)),
                None => None,
            },
    {
        proof {
            assert(told_of(events@) + Seq::<Told>::empty() =~= told_of(events@));
        }
        let kind = match &event.kind {
            Some(kind) => kind.as_str(),
            None => {
                return Err(ModelError::Protocol(text("Responses SSE event missing type")));
            },
        };
        if same(kind, "response.created") {
            match &event.response_id {
                Some(id) => {
                    self.response_id = Some(id.clone());
                    tell(events, ModelEvent::ResponseCreated { id: id.clone() });
                },
                None => {},
            }
        } else if same(kind, "response.reasoning_summary_text.delta") {
            match &event.delta {
                Some(delta) => tell(events, ModelEvent::ReasoningSummaryDelta(delta.clone())),
                None => {},
            }
        } else if same(kind, "response.reasoning_summary_text.done") {
            tell(events, ModelEvent::ReasoningSummaryDone);
        } else if same(kind, "response.output_text.delta") {
            match &event.delta {
                Some(delta) => {
                    self.output_text.append(delta.as_str());
                    tell(events, ModelEvent::OutputTextDelta(delta.clone()));
                },
                None => {},
            }
        } else if same(kind, "response.output_item.added") || same(
            kind,
            "response.output_item.done",
        ) {
            if is_text(&event.item_kind, "function_call") {
                self.take_name(&event.item_name, events);
                match &event.item_arguments {
                    Some(arguments) => {
                        if !arguments.as_str().is_empty() {
                            self.function_arguments = arguments.clone();
                        }
                    },
                    None => {},
                }
            }
        } else if same(kind, "response.function_call_arguments.done") {
            self.take_name(&event.name, events);
            self.function_arguments = match &event.arguments {
                Some(arguments) => arguments.clone(),
                None => text("{}"),
            };
        } else if same(kind, "response.completed") {
            self.completed = true;
            if self.response_id.is_none() {
                self.response_id = copy_text(&event.response_id);
            }
            tell(events, ModelEvent::ResponseCompleted { id: copy_text(&self.response_id) });
            self.read_completed_output(event);
        } else if same(kind, "response.failed") || same(kind, "response.incomplete") {
            let message = match &event.error_message {
                Some(message) => message.clone(),
                None => text(kind),
            };
            return Err(ModelError::Protocol(message));
        } else if same(kind, "error") {
            let message = match &event.message {
                Some(message) => message.clone(),
                None => text("Responses API stream error"),
            };
            return Err(ModelError::Protocol(message));
        }
        Ok(())
    }

    /// What the finished stream amounts to.
    pub fn finish(self) -> (r: Result<ModelOutput, ModelError>)
        ensures
            is_outcome(outcome(self@), r),
    {
        if !self.completed {
            return Err(
                ModelError::Protocol(text("Responses stream ended before response.completed")),
            );
        }
        match self.function_name {
            Some(name) => {
                match parse_error(self.function_arguments.as_str()) {
                    Some(error) => {
                        let mut message = text("invalid function arguments: ");
                        message.append(error.as_str());
                        Err(ModelError::Protocol(message))
                    },
                    None => normalize_function_call(name, Json { text: self.function_arguments }),
                }
            },
            None => {
                if self.output_text.as_str().is_empty() {
                    Err(
                        ModelError::Protocol(
                            text("Responses stream completed without text or function call"),
                        ),
                    )
                } else {
                    Ok(normalize_text(self.output_text.as_str()))
                }
            },
        }
    }
}

/// Whether `r` is the given outcome, a message standing for a breach of protocol.
pub open spec fn is_outcome(expected: Result<Answer, Seq<char>>, r: Result<ModelOutput, ModelError>) -> bool {
    match (expected, r) {
        (Ok(answer), Ok(output)) => output@ == answer,
        (Err(message), Err(error)) => error@ == Fault::Protocol(message),
        _ => false,
    }
}

/// What a text answer amounts to.
pub fn normalize_text(content: &str) -> (r: ModelOutput)
    ensures
        r@ == answered(content@),
{
    match extract_js_fence(content) {
        Some(source) => ModelOutput::Program { language: ProgramLanguage::JavaScript, source },
        None => ModelOutput::Text(trim(content)),
    }
}

/// What a function call amounts to.
pub fn normalize_function_call(name: String, arguments: Json) -> (r: Result<ModelOutput, ModelError>)
    ensures
        is_outcome(called(name@, arguments.text@), r),
{
    if same(name.as_str(), "ptc") {
        match arguments.str_at("/source") {
            Some(source) => {
                if is_blank(source.as_str()) {
                    Err(ModelError::Protocol(text("ptc function call missing source")))
                } else {
                    Ok(ModelOutput::Program { language: ProgramLanguage::JavaScript, source })
                }
            },
            None => Err(ModelError::Protocol(text("ptc function call missing source"))),
        }
    } else {
        Ok(ModelOutput::FunctionCall { name, arguments })
    }
}

/// The program of an answer: none for text, the source of a program, a call of
/// the tool for a function call.
pub open spec fn lowered(output: ModelOutput) -> Option<Seq<char>> {
    match output {
        ModelOutput::Text(_) => None,
        ModelOutput::Program { source, .. } => Some(source@),
        ModelOutput::FunctionCall { name, arguments } => Some(
            "return tool("@ + quoted(name@) + ", "@ + arguments.compact() + ");"@,
        ),
    }
}

/// Lowers every executable answer into a program.
pub fn lower(output: &ModelOutput) -> (r: Option<String>)
    ensures
        opt_view(r) == lowered(*output),
{
    match output {
        ModelOutput::Text(_) => None,
        ModelOutput::Program { source, .. } => Some(source.clone()),
        ModelOutput::FunctionCall { name, arguments } => {
            let mut s = text("return tool(");
            s.append(quote(name.as_str()).as_str());
            s.append(", ");
            s.append(arguments.compact_text().as_str());
            s.append(");");
            Some(s)
        },
    }
}

/// The program in the fence that starts at `start` with a marker of `width`
/// characters.
fn body_of_fence(chars: &Vec<char>, start: usize, width: usize) -> (r: Option<String>)
    requires
        start + width <= chars.len(),
    ensures
        opt_view(r) == ({
            let after = start + width;
            let body = if after < chars@.len() && chars@[after as int] == '\n' {
                after + 1
            } else {
                after as int
            };
            match first_index(chars@, "```"@, body as int) {
                Some(end) => Some(trimmed(chars@.subrange(body as int, end))),
                None => None,
            }
        }),
{
    let after: usize = start + width;
    let body: usize = if after < chars.len() && chars[after] == '\n' {
        after + 1
    } else {
        after
    };
    let close = to_chars("```");
    match find_from(chars, &close, body) {
        Some(end) => {
            proof {
                crate::text::lemma_first_index(chars@, "```"@, body as int);
            }
            let inner = from_chars(chars, body, end);
            Some(trim(inner.as_str()))
        },
        None => None,
    }
}

/// The program in the first kind of fence that the text opens.
pub fn extract_js_fence(content: &str) -> (r: Option<String>)
    ensures
        opt_view(r) == program_in(content@),
{
    let chars = to_chars(content);
    let first = to_chars("```javascript");
    proof {
        crate::text::lemma_first_index(content@, "```javascript"@, 0);
        crate::text::lemma_first_index(content@, "```js"@, 0);
        crate::text::lemma_first_index(content@, "```ptc"@, 0);
    }
    match find_from(&chars, &first, 0) {
        Some(start) => {
            return body_of_fence(&chars, start, first.len());
        },
        None => {},
    }
    let second = to_chars("```js");
    match find_from(&chars, &second, 0) {
        Some(start) => {
            return body_of_fence(&chars, start, second.len());
        },
        None => {},
    }
    let third = to_chars("```ptc");
    match find_from(&chars, &third, 0) {
        Some(start) => body_of_fence(&chars, start, third.len()),
        None => None,
    }
}

/// Frames the lines of an event stream into events and takes them up.
#[derive(Clone, Debug, PartialEq, Eq)]
pub struct StreamReader {
    pub stream: ResponseStreamState,
    pub data_lines: Vec<String>,
    /// The provider said that nothing more follows.
    pub done: bool,
}

/// Where the reading of a stream stands, as plain values.
#[verifier::ext_equal]
pub struct ReaderView {
    pub stream: StreamView,
    pub pending: Seq<Seq<char>>,
    pub done: bool,
    pub told: Seq<Told>,
    pub error: Option<Seq<char>>,
}

/// The start of every stream.
pub open spec fn fresh_reader() -> ReaderView {
    ReaderView {
        stream: fresh_stream(),
        pending: Seq::empty(),
        done: false,
        told: Seq::empty(),
        error: None,
    }
}

/// Takes up the data of one event. Data that is not JSON ends the stream with a
/// message led by `lead`.
pub open spec fn delivered(p: ReaderView, data: Seq<char>, lead: Seq<char>) -> ReaderView {
    let cleared = ReaderView { pending: Seq::empty(), ..p };
    match json_error(data) {
        Some(message) => ReaderView { error: Some(lead + message), ..cleared },
        None => {
            let effect = applied(p.stream, event_of(data));
            ReaderView {
                stream: effect.state,
                told: p.told + effect.told,
                error: effect.error,
                ..cleared
            }
        },
    }
}

/// Takes up one line: data is collected, and a blank line ends the event.
pub open spec fn line_taken(p: ReaderView, line: Seq<char>) -> ReaderView {
    if p.done || p.error is Some {
        p
    } else if line.len() == 0 {
        if p.pending.len() == 0 {
            p
        } else {
            let data = joined(p.pending, "\n"@);
            if data == "[DONE]"@ {
                ReaderView { pending: Seq::empty(), done: true, ..p }
            } else {
                delivered(p, data, "invalid Responses SSE event: "@)
            }
        }
    } else if has_prefix(line, "data:"@) {
        ReaderView { pending: p.pending.push(trim_start(line.skip("data:"@.len() as int))), ..p }
    } else {
        p
    }
}

/// Takes up lines, in order.
pub open spec fn lines_taken(p: ReaderView, all: Seq<Seq<char>>) -> ReaderView
    decreases all.len(),
{
    if all.len() == 0 {
        p
    } else {
        line_taken(lines_taken(p, all.drop_last()), all.last())
    }
}

/// The end of the lines: data that no blank line followed is still an event.
pub open spec fn closed(p: ReaderView) -> ReaderView {
    if p.done || p.error is Some || p.pending.len() == 0 {
        p
    } else {
        delivered(p, joined(p.pending, "\n"@), "invalid trailing Responses SSE event: "@)
    }
}

/// What a stream of lines amounts to.
pub open spec fn stream_outcome(all: Seq<Seq<char>>) -> Result<Answer, Seq<char>> {
    let end = closed(lines_taken(fresh_reader(), all));
    match end.error {
        Some(message) => Err(message),
        None => outcome(end.stream),
    }
}

/// A text from its first character that is not white space.
fn trim_front(chars: &Vec<char>, from: usize) -> (r: String)
    requires
        from <= chars.len(),
    ensures
        r@ == trim_start(chars@.skip(from as int)),
{
    let mut i: usize = from;
    let ghost all = chars@.skip(from as int);
    while i < chars.len() && crate::text::is_space_char(chars[i])
        invariant
            from <= i <= chars.len(),
            trim_start(all) == trim_start(chars@.skip(i as int)),
        decreases chars.len() - i,
    {
        proof {
            assert(chars@.skip(i as int).drop_first() =~= chars@.skip(i + 1));
        }
        i = i + 1;
    }
    proof {
        assert(chars@.subrange(i as int, chars@.len() as int) =~= chars@.skip(i as int));
    }
    from_chars(chars, i, chars.len())
}

impl StreamReader {
    /// Where the reading stands, given what was told and whether it failed.
    pub open spec fn standing(self, told: Seq<Told>, error: Option<Seq<char>>) -> ReaderView {
        ReaderView {
            stream: self.stream@,
            pending: views(self.data_lines@),
            done: self.done,
            told,
            error,
        }
    }

    /// A reader that has read nothing.
    pub fn new() -> (r: StreamReader)
        ensures
            r.standing(Seq::empty(), None) == fresh_reader(),
    {
        let r = StreamReader {
            stream: ResponseStreamState::default(),
            data_lines: Vec::new(),
            done: false,
        };
        proof {
            assert(views(r.data_lines@) =~= Seq::<Seq<char>>::empty());
        }
        r
    }

    fn deliver(&mut self, data: String, lead: &str, events: &mut Vec<ModelEvent>) -> (r: Result<
        (),
        ModelError,
    >)
        ensures
            final(self).standing(told_of(final(events)@), protocol_message(r)) == delivered(
                old(self).standing(told_of(old(events)@), None),
                data@,
                lead@,
            ),
            r matches Err(e) ==> e is Protocol,
    {
        self.data_lines = Vec::new();
        proof {
            assert(views(self.data_lines@) =~= Seq::<Seq<char>>::empty());
        }
        match read_event(data.as_str()) {
            Err(error) => {
                let mut message = text(lead);
                message.append(error.as_str());
                Err(ModelError::Protocol(message))
            },
            Ok(event) => self.stream.apply_event(&event, events),
        }
    }

    /// Takes up one line of the stream. After an error or the end of the
    /// stream nothing more is taken up.
    pub fn push_line(&mut self, line: &str, events: &mut Vec<ModelEvent>) -> (r: Result<
        (),
        ModelError,
    >)
        ensures
            final(self).standing(told_of(final(events)@), protocol_message(r)) == line_taken(
                old(self).standing(told_of(old(events)@), None),
                line@,
            ),
            r matches Err(e) ==> e is Protocol,
    {
        if self.done {
            return Ok(());
        }
        if line.is_empty() {
            proof {
                assert(views(self.data_lines@).len() == self.data_lines@.len());
            }
            if self.data_lines.is_empty() {
                return Ok(());
            }
            let data = join(&self.data_lines, "\n");
            if same(data.as_str(), "[DONE]") {
                self.data_lines = Vec::new();
                self.done = true;
                proof {
                    assert(views(self.data_lines@) =~= Seq::<Seq<char>>::empty());
                }
                return Ok(());
            }
            return self.deliver(data, "invalid Responses SSE event: ", events);
        }
        let chars = to_chars(line);
        let lead = to_chars("data:");
        if matches_at(&chars, &lead, 0) {
            let data = trim_front(&chars, lead.len());
            let ghost before = self.data_lines@;
            self.data_lines.push(data);
            proof {
                assert(views(self.data_lines@) =~= views(before).push(data@));
            }
        }
        Ok(())
    }

    /// Takes up what no blank line followed.
    pub fn close(&mut self, events: &mut Vec<ModelEvent>) -> (r: Result<(), ModelError>)
        ensures
            final(self).standing(told_of(final(events)@), protocol_message(r)) == closed(
                old(self).standing(told_of(old(events)@), None),
            ),
            r matches Err(e) ==> e is Protocol,
    {
        proof {
            assert(views(self.data_lines@).len() == self.data_lines@.len());
        }
        if self.done || self.data_lines.is_empty() {
            return Ok(());
        }
        let data = join(&self.data_lines, "\n");
        self.deliver(data, "invalid trailing Responses SSE event: ", events)
    }
}

/// The message of a breach of protocol.
pub open spec fn protocol_message(r: Result<(), ModelError>) -> Option<Seq<char>> {
    match r {
        Err(ModelError::Protocol(message)) => Some(message@),
        _ => None,
    }
}

/// Reads a whole event stream. A request that should stop is stopped at its
/// first line; else the stream amounts to what its lines say, and what they
/// tell is told in their order.
pub fn parse_responses_stream(body: &str, stop: &GenerationStop, events: &mut Vec<ModelEvent>) -> (r: Result<
    ModelOutput,
    ModelError,
>)
    ensures
        match stop.why() {
            Some(reason) if lines(body@).len() > 0 => r matches Err(error) && error@
                == Fault::Stopped(reason) && told_of(final(events)@) == told_of(old(events)@),
            _ => is_outcome(stream_outcome(lines(body@)), r) && told_of(final(events)@) == told_of(
                old(events)@,
            ) + closed(lines_taken(fresh_reader(), lines(body@))).told,
        },
{
    let all = lines_text(body);
    let ghost texts = lines(body@);
    let ghost start = told_of(events@);
    proof {
        assert(views(all@).len() == all@.len());
    }
    match stop.reason() {
        Some(reason) => {
            if !all.is_empty() {
                return Err(ModelError::Stopped(reason));
            }
        },
        None => {},
    }
    let mut reader = StreamReader::new();
    let mut heard: Vec<ModelEvent> = Vec::new();
    let mut i: usize = 0;
    proof {
        assert(told_of(heard@) =~= Seq::<Told>::empty());
    }
    while i < all.len()
        invariant
            i <= all.len(),
            views(all@) == texts,
            texts == lines(body@),
            stop.why() is None || texts.len() == 0,
            start == told_of(old(events)@),
            reader.standing(told_of(heard@), None) == lines_taken(
                fresh_reader(),
                texts.take(i as int),
            ),
            told_of(events@) == start,
        decreases all.len() - i,
    {
        proof {
            assert(texts.take(i + 1).drop_last() =~= texts.take(i as int));
            assert(texts.take(i + 1).last() == all@[i as int]@);
        }
        match reader.push_line(all[i].as_str(), &mut heard) {
            Ok(_) => {},
            Err(error) => {
                proof {
                    lemma_error_stays(fresh_reader(), texts, i + 1);
                    assert(texts.take(texts.len() as int) =~= texts);
                }
                append_events(events, heard);
                return Err(error);
            },
        }
        i = i + 1;
    }
    proof {
        assert(texts.take(i as int) =~= texts);
    }
    match reader.close(&mut heard) {
        Ok(_) => {
            append_events(events, heard);
            reader.stream.finish()
        },
        Err(error) => {
            append_events(events, heard);
            Err(error)
        },
    }
}

/// Once a stream failed, further lines change nothing.
proof fn lemma_error_stays(p: ReaderView, all: Seq<Seq<char>>, k: int)
    requires
        0 <= k <= all.len(),
        lines_taken(p, all.take(k)).error is Some,
    ensures
        lines_taken(p, all) == lines_taken(p, all.take(k)),
    decreases all.len() - k,
{
    if k < all.len() {
        assert(all.take(k + 1).drop_last() =~= all.take(k));
        lemma_error_stays(p, all, k + 1);
    } else {
        assert(all.take(k) =~= all);
    }
}

fn append_events(events: &mut Vec<ModelEvent>, heard: Vec<ModelEvent>)
    ensures
        told_of(final(events)@) == told_of(old(events)@) + told_of(heard@),
{
    let ghost before = events@;
    let mut heard = heard;
    let ghost more = heard@;
    events.append(&mut heard);
    proof {
        assert(told_of(events@) =~= told_of(before) + told_of(more));
    }
}

} // verus!
