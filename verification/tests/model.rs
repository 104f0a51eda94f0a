use mh::context::CompiledContext;
use mh::json::Json;
use mh::model::{
    extract_js_fence, lower, normalize_function_call, normalize_text, parse_responses_stream,
    tool_definitions, GenerationStop, GenerationStopReason, ModelError, ModelEvent, ModelOutput,
    OpenAiResponses, ProgramLanguage,
};
use serde_json::Value;

#[test]
fn responses_stream_normalizes_ptc_function_into_program() {
    let stream = [
        "data: {\"type\":\"response.created\",\"response\":{\"id\":\"resp_1\"}}\n\n",
        "data: {\"type\":\"response.reasoning_summary_text.delta\",\"delta\":\"Inspecting\"}\n\n",
        "data: {\"type\":\"response.reasoning_summary_text.done\",\"text\":\"Inspecting\"}\n\n",
        "data: {\"type\":\"response.output_item.added\",\"output_index\":0,\"item\":{\"id\":\"fc_1\",\"type\":\"function_call\",\"status\":\"in_progress\",\"arguments\":\"\",\"call_id\":\"call_1\",\"name\":\"ptc\"}}\n\n",
        "data: {\"type\":\"response.function_call_arguments.done\",\"item_id\":\"fc_1\",\"output_index\":0,\"arguments\":\"{\\\"source\\\":\\\"return read(\\\\\\\"src/main.rs\\\\\\\");\\\"}\"}\n\n",
        "data: {\"type\":\"response.output_item.done\",\"output_index\":0,\"item\":{\"id\":\"fc_1\",\"type\":\"function_call\",\"status\":\"completed\",\"arguments\":\"{\\\"source\\\":\\\"return read(\\\\\\\"src/main.rs\\\\\\\");\\\"}\",\"call_id\":\"call_1\",\"name\":\"ptc\"}}\n\n",
        "data: {\"type\":\"response.completed\",\"response\":{\"id\":\"resp_1\",\"output\":[]}}\n\n",
    ]
    .join("");
    let stop = GenerationStop::new(false);
    let mut events = Vec::new();
    let output = parse_responses_stream(&stream, &stop, &mut events).unwrap();
    assert_eq!(
        output,
        ModelOutput::Program {
            language: ProgramLanguage::JavaScript,
            source: "return read(\"src/main.rs\");".to_string(),
        }
    );
    assert!(events.contains(&ModelEvent::ResponseCreated { id: "resp_1".to_string() }));
    assert!(events.contains(&ModelEvent::ReasoningSummaryDelta("Inspecting".to_string())));
    assert!(events.contains(&ModelEvent::FunctionCall { name: "ptc".to_string() }));
}

#[test]
fn responses_stream_collects_output_text() {
    let stream = [
        "data: {\"type\":\"response.output_text.delta\",\"delta\":\"done\"}\n\n",
        "data: {\"type\":\"response.completed\",\"response\":{\"id\":\"resp_2\",\"output\":[]}}\n\n",
    ]
    .join("");
    let stop = GenerationStop::new(false);
    let output = parse_responses_stream(&stream, &stop, &mut Vec::new()).unwrap();
    assert_eq!(output, ModelOutput::Text("done".to_string()));
}

fn parsed(json: &Json) -> Value {
    serde_json::from_str(&json.text).unwrap()
}

#[test]
fn exposes_only_strict_ptc_provider_function() {
    let tools = parsed(&tool_definitions());
    let tools = tools.as_array().unwrap();
    assert_eq!(tools.len(), 1);
    let tool = &tools[0];
    assert_eq!(tool.get("name").and_then(Value::as_str), Some("ptc"));
    assert_eq!(tool.get("strict"), Some(&Value::Bool(true)));
    let parameters = tool.get("parameters").unwrap();
    assert_eq!(
        parameters.get("required"),
        Some(&Value::Array(vec![Value::String("source".to_string())]))
    );
    assert_eq!(
        parameters.pointer("/properties/source/type").and_then(Value::as_str),
        Some("string")
    );
    let description = tool.get("description").and_then(Value::as_str).unwrap();
    assert!(description.contains("batch(name, args[])"));
    assert!(description.contains("evidence(kind, ok, metadata?)"));
    assert!(description.contains("totalBytes"));
}

#[test]
fn generation_stop_prioritizes_user_interrupt() {
    let mut stop = GenerationStop::new(false);
    stop.stop(GenerationStopReason::Superseded);
    assert_eq!(stop.reason(), Some(GenerationStopReason::Superseded));
    stop.stop(GenerationStopReason::UserInterrupt);
    assert_eq!(stop.reason(), Some(GenerationStopReason::UserInterrupt));
}

#[test]
fn provider_description_exposes_checkpoint_and_restore() {
    let definitions = parsed(&tool_definitions());
    let description = definitions[0]["description"].as_str().unwrap();
    assert!(description.contains("checkpoint()"));
    assert!(description.contains("restore(checkpoint)"));
}

#[test]
fn ptc_function_requires_non_empty_source() {
    let arguments = Json::parse("{\"source\": \"  \"}").unwrap();
    let error = normalize_function_call("ptc".to_string(), arguments).unwrap_err();
    assert!(error.message().contains("missing source"));
}

#[test]
fn extracts_program_fence() {
    let output = normalize_text("Working.\n```js\nreturn glob(\"src/**\");\n```");
    assert!(matches!(output, ModelOutput::Program { .. }));
}

#[test]
fn function_call_lowers_to_canonical_tool() {
    let source = lower(&ModelOutput::FunctionCall {
        name: "read".to_string(),
        arguments: Json::parse("{\"path\": \"a.rs\"}").unwrap(),
    })
    .unwrap();
    assert_eq!(source, "return tool(\"read\", {\"path\":\"a.rs\"});");
}

#[test]
fn a_fence_without_an_end_is_text() {
    assert_eq!(
        extract_js_fence("```js\nreturn 1;\n```\nafter"),
        Some("return 1;".to_string())
    );
    assert_eq!(extract_js_fence("```js\nreturn 1;"), None);
    assert_eq!(extract_js_fence("no program"), None);
    assert_eq!(normalize_text("just words"), ModelOutput::Text("just words".to_string()));
    assert_eq!(lower(&ModelOutput::Text("x".to_string())), None);
}

#[test]
fn a_damaged_stream_is_a_protocol_error() {
    let stop = GenerationStop::new(false);
    let error = parse_responses_stream("data: {not json\n\n", &stop, &mut Vec::new()).unwrap_err();
    assert!(matches!(error, ModelError::Protocol(_)), "{}", error.message());
    let failed = "data: {\"type\":\"response.failed\",\"response\":{\"id\":\"x\"}}\n\n";
    assert!(parse_responses_stream(failed, &stop, &mut Vec::new()).is_err());
}

#[test]
fn a_stopped_stream_says_why() {
    let body = "data: {\"type\":\"response.output_text.delta\",\"delta\":\"x\"}\n\n";
    let mut stop = GenerationStop::new(false);
    stop.stop(GenerationStopReason::Superseded);
    assert_eq!(
        parse_responses_stream(body, &stop, &mut Vec::new()),
        Err(ModelError::Stopped(GenerationStopReason::Superseded))
    );
    let interrupted = GenerationStop::new(true);
    assert_eq!(
        parse_responses_stream(body, &interrupted, &mut Vec::new()),
        Err(ModelError::Stopped(GenerationStopReason::UserInterrupt))
    );
}

#[test]
fn the_environment_configures_the_provider() {
    let own = OpenAiResponses::from_env(
        Some("own".to_string()),
        Some("fallback".to_string()),
        Some("http://localhost:1/v1//".to_string()),
        Some("m".to_string()),
        Some("7".to_string()),
    )
    .unwrap();
    assert_eq!(own.api_key, "own");
    assert_eq!(own.model, "m");
    assert_eq!(own.request_timeout_secs, 7);
    assert_eq!(own.endpoint(), "http://localhost:1/v1/responses");

    let fallback =
        OpenAiResponses::from_env(None, Some("k".to_string()), None, None, Some("x".to_string()))
            .unwrap();
    assert_eq!(fallback.api_key, "k");
    assert_eq!(fallback.model, "gpt-4.1-mini");
    assert_eq!(fallback.request_timeout_secs, 300);
    assert_eq!(fallback.endpoint(), "https://api.openai.com/v1/responses");

    let error = OpenAiResponses::from_env(None, None, None, None, None).unwrap_err();
    assert!(error.message().contains("set MH_API_KEY (or OPENAI_API_KEY)"));
}

#[test]
fn a_request_carries_the_context_and_one_tool() {
    let provider =
        OpenAiResponses::from_env(Some("k".to_string()), None, None, Some("m".to_string()), None)
            .unwrap();
    let context = CompiledContext {
        items: vec![mh::context::item(
            mh::context::ContextSource::Task,
            mh::context::Priority::Hard,
            "say \"hi\"\n".to_string(),
        )],
        estimated_tokens: 3,
        omitted_items: 0,
    };
    let body = parsed(&provider.request_body(&context));
    assert_eq!(body["model"], Value::String("m".to_string()));
    assert_eq!(body["input"], Value::String("say \"hi\"\n".to_string()));
    assert_eq!(body["tool_choice"], Value::String("auto".to_string()));
    assert_eq!(body["tools"], parsed(&tool_definitions()));
    assert_eq!(body["stream"], Value::Bool(true));
}
