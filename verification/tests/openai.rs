//! Chat Completions and Responses: requests, streamed events and the client.

use agent_sdk::json::Json;
use agent_sdk::language_model::error::ModelError;
use agent_sdk::language_model::event::{FinishReason, LanguageModelEvent as E, Usage};
use agent_sdk::language_model::message::{ContentBlock, Message, Role};
use agent_sdk::language_model::request::LanguageModelRequest;
use agent_sdk::language_model::tool::{ToolChoice, ToolSpec};
use agent_sdk::openai::chat::{
    build_request as build_chat, ChatStreamChoice, ChatStreamChunk, ChatStreamDelta, ChatStreamFn,
    ChatStreamToolCall, ChatStreamUsage, PromptTokensDetails, PARALLEL_TOOL_CALLS_KEY,
};
use agent_sdk::openai::client::{
    Mapper, OpenAI, OpenAIApi, OpenAIBody, OpenAIConfig, OpenAIWire,
};
use agent_sdk::openai::event_map_chat::{map_finish_reason, ChatEventMapper};
use agent_sdk::openai::event_map_responses::{map_incomplete, ResponsesEventMapper};
use agent_sdk::openai::responses::{
    build_request as build_responses, event_kind, CompletedResponse, FailedResponse,
    FunctionCallArgsDelta, IncompleteDetails, InputTokensDetails, OutputItemAdded, OutputItemDone,
    OutputTextDelta, ReasoningSummaryDelta, ResponseCompleted, ResponseFailed,
    ResponsesContentPart, ResponsesError, ResponsesEvent, ResponsesEventKind, ResponsesInputItem,
    ResponsesOutputItem, ResponsesUsage,
};

fn s(text: &str) -> String {
    text.to_string()
}

fn json(text: &str) -> Json {
    Json::parse(text).unwrap()
}

fn req_with_user(text: &str) -> LanguageModelRequest {
    let mut r = LanguageModelRequest::default();
    r.messages.push(Message::user(s(text)));
    r
}

#[test]
fn endpoint_chat_strips_trailing_slash() {
    let cfg = OpenAIConfig::new(s("k")).with_base_url(s("http://x/"));
    let m = OpenAI::with_config(s("gpt-x"), OpenAIApi::Chat, cfg);
    assert_eq!(m.endpoint(), "http://x/v1/chat/completions");
}

#[test]
fn endpoint_responses() {
    let cfg = OpenAIConfig::new(s("k")).with_base_url(s("http://x"));
    let m = OpenAI::with_config(s("gpt-x"), OpenAIApi::Responses, cfg);
    assert_eq!(m.endpoint(), "http://x/v1/responses");
}

#[test]
fn debug_redacts_api_key() {
    let cfg = OpenAIConfig::new(s("sk-super-secret")).redacted();
    let s = format!("{cfg:?}");
    assert!(!s.contains("sk-super-secret"), "key leaked: {s}");
    assert!(s.contains("<redacted>"));
}

#[test]
fn hoists_system_prompt_as_leading_message() {
    let mut r = req_with_user("hi");
    r.system = Some(s("be terse"));
    let built = build_chat("gpt-x", &r).unwrap();
    assert_eq!(built.messages[0].role, "system");
    assert_eq!(built.messages[0].content, Json::Text(s("be terse")));
    assert_eq!(built.messages[1].role, "user");
}

#[test]
fn stream_options_include_usage_is_true() {
    let built = build_chat("gpt-x", &req_with_user("hi")).unwrap();
    assert!(built.stream);
    assert!(built.stream_options.include_usage);
}

#[test]
fn chat_maps_tool_choice_variants() {
    let mut r = req_with_user("hi");
    r.tool_choice = ToolChoice::Required;
    assert_eq!(build_chat("m", &r).unwrap().tool_choice.unwrap(), Json::Text(s("required")));
    r.tool_choice = ToolChoice::Tool { name: s("bash") };
    assert_eq!(
        build_chat("m", &r).unwrap().tool_choice.unwrap(),
        json("{\"type\":\"function\",\"function\":{\"name\":\"bash\"}}")
    );
    r.tool_choice = ToolChoice::NoTool;
    assert_eq!(build_chat("m", &r).unwrap().tool_choice.unwrap(), Json::Text(s("none")));
    r.tool_choice = ToolChoice::Auto;
    assert!(build_chat("m", &r).unwrap().tool_choice.is_none());
}

#[test]
fn parallel_tool_calls_opt_out_propagates() {
    let mut r = req_with_user("hi");
    r.provider_metadata.insert(s(PARALLEL_TOOL_CALLS_KEY), Json::Bool(false));
    let built = build_chat("m", &r).unwrap();
    assert_eq!(built.parallel_tool_calls, Some(false));
}

#[test]
fn tools_map_to_function_shape() {
    let mut r = req_with_user("hi");
    r.tools.push(ToolSpec::new(s("echo"), s("d"), json("{\"type\":\"object\"}")));
    let built = build_chat("m", &r).unwrap();
    assert_eq!(built.tools.len(), 1);
    assert_eq!(built.tools[0].kind, "function");
    assert_eq!(built.tools[0].function.name, "echo");
}

#[test]
fn system_goes_into_instructions_not_input() {
    let mut r = req_with_user("hi");
    r.system = Some(s("be terse"));
    let built = build_responses("gpt-x", &r).unwrap();
    assert_eq!(built.instructions.as_deref(), Some("be terse"));
    assert_eq!(built.input.len(), 1);
}

#[test]
fn user_msg_maps_to_input_text_part() {
    let built = build_responses("m", &req_with_user("hi")).unwrap();
    match &built.input[0] {
        ResponsesInputItem::Message { role, content } => {
            assert_eq!(*role, "user");
            assert!(matches!(content[0], ResponsesContentPart::InputText { ref text } if text == "hi"));
        }
        _ => panic!("expected message item"),
    }
}

#[test]
fn store_defaults_to_false() {
    let built = build_responses("m", &req_with_user("hi")).unwrap();
    assert!(!built.store);
    assert!(built.stream);
}

#[test]
fn parses_known_event_types() {
    assert_eq!(event_kind("response.output_text.delta"), ResponsesEventKind::OutputTextDelta);
    let payload: serde_json::Value = serde_json::from_str(
        r#"{"delta":"hello","item_id":"i_1","output_index":0,"content_index":0}"#,
    )
    .unwrap();
    let ev = ResponsesEvent::OutputTextDelta(OutputTextDelta {
        delta: payload["delta"].as_str().unwrap().to_string(),
    });
    match ResponsesEventMapper::new().map(ev).as_slice() {
        [E::TextDelta { delta }] => assert_eq!(delta, "hello"),
        _ => panic!("wrong variant"),
    }
    let ig = event_kind("response.something_new");
    assert!(matches!(ig, ResponsesEventKind::Ignored));
    assert!(ResponsesEventMapper::new().map(ResponsesEvent::Ignored).is_empty());
}

fn chunk_with_delta(delta: ChatStreamDelta, finish: Option<&str>) -> ChatStreamChunk {
    ChatStreamChunk {
        choices: vec![ChatStreamChoice { delta, finish_reason: finish.map(str::to_string) }],
        usage: None,
    }
}

#[test]
fn text_then_finish_emits_textdelta_and_finish() {
    let mut m = ChatEventMapper::new();
    let out = m.map(chunk_with_delta(
        ChatStreamDelta { content: Some(s("hi")), tool_calls: Vec::new() },
        None,
    ));
    assert!(matches!(out.first(), Some(E::TextDelta { delta }) if delta == "hi"));

    let out = m.map(chunk_with_delta(ChatStreamDelta::default(), Some("stop")));
    assert!(out.is_empty());

    let chunk = ChatStreamChunk {
        choices: Vec::new(),
        usage: Some(ChatStreamUsage {
            prompt_tokens: 10,
            completion_tokens: 5,
            prompt_tokens_details: None,
        }),
    };
    m.map(chunk);

    let flushed = m.flush();
    match flushed.last().unwrap() {
        E::Finish { reason, usage } => {
            assert_eq!(*reason, FinishReason::Stop);
            assert_eq!(usage.input_tokens, 10);
            assert_eq!(usage.output_tokens, 5);
        }
        o => panic!("expected Finish, got {o:?}"),
    }
}

#[test]
fn tool_call_lifecycle_start_delta_end_in_finish() {
    let mut m = ChatEventMapper::new();
    let chunk = chunk_with_delta(
        ChatStreamDelta {
            content: None,
            tool_calls: vec![ChatStreamToolCall {
                index: 0,
                id: Some("call_1".into()),
                function: Some(ChatStreamFn {
                    name: Some("bash".into()),
                    arguments: Some("{\"cmd\":".into()),
                }),
            }],
        },
        None,
    );
    let out = m.map(chunk);
    assert!(matches!(out[0], E::ToolCallStart { ref id, ref name } if id == "call_1" && name == "bash"));
    assert!(matches!(out[1], E::ToolCallDelta { ref id, .. } if id == "call_1"));

    let chunk = chunk_with_delta(
        ChatStreamDelta {
            content: None,
            tool_calls: vec![ChatStreamToolCall {
                index: 0,
                id: None,
                function: Some(ChatStreamFn {
                    name: None,
                    arguments: Some("\"ls\"}".into()),
                }),
            }],
        },
        Some("tool_calls"),
    );
    let out = m.map(chunk);
    assert!(matches!(out[0], E::ToolCallDelta { .. }));

    let flushed = m.flush();
    assert!(matches!(flushed[0], E::ToolCallEnd { ref id, .. } if id == "call_1"));
    assert!(matches!(flushed[1], E::Finish { reason: FinishReason::ToolUse, .. }));
}

fn item(kind: &str, id: &str, call_id: Option<&str>, name: Option<&str>) -> ResponsesOutputItem {
    ResponsesOutputItem {
        kind: kind.into(),
        id: Some(id.into()),
        call_id: call_id.map(str::to_string),
        name: name.map(str::to_string),
        arguments: None,
    }
}

#[test]
fn text_only_lifecycle_emits_textdelta_and_finish_stop() {
    let mut m = ResponsesEventMapper::new();
    m.map(ResponsesEvent::OutputItemAdded(OutputItemAdded {
        item: item("message", "msg_1", None, None),
    }));
    let out = m.map(ResponsesEvent::OutputTextDelta(OutputTextDelta { delta: "hi".into() }));
    assert!(matches!(out[0], E::TextDelta { ref delta } if delta == "hi"));
    let out = m.map(ResponsesEvent::Completed(ResponseCompleted {
        response: CompletedResponse {
            usage: Some(ResponsesUsage {
                input_tokens: 8,
                output_tokens: 3,
                input_tokens_details: None,
            }),
            incomplete_details: None,
            status: Some("completed".into()),
        },
    }));
    match &out[0] {
        E::Finish { reason, usage } => {
            assert_eq!(*reason, FinishReason::Stop);
            assert_eq!(usage.input_tokens, 8);
            assert_eq!(usage.output_tokens, 3);
        }
        o => panic!("expected Finish, got {o:?}"),
    }
}

#[test]
fn function_call_lifecycle_emits_start_delta_end_and_tooluse() {
    let mut m = ResponsesEventMapper::new();
    let out = m.map(ResponsesEvent::OutputItemAdded(OutputItemAdded {
        item: item("function_call", "item_1", Some("call_1"), Some("bash")),
    }));
    assert!(matches!(out[0], E::ToolCallStart { ref id, ref name } if id == "call_1" && name == "bash"));

    let out = m.map(ResponsesEvent::FunctionCallArgsDelta(FunctionCallArgsDelta {
        item_id: "item_1".into(),
        delta: "{\"cmd\":\"ls\"}".into(),
    }));
    assert!(matches!(out[0], E::ToolCallDelta { ref id, .. } if id == "call_1"));

    let out = m.map(ResponsesEvent::OutputItemDone(OutputItemDone {
        item: item("function_call", "item_1", Some("call_1"), Some("bash")),
    }));
    assert!(matches!(out[0], E::ToolCallEnd { ref id, .. } if id == "call_1"));

    let out = m.map(ResponsesEvent::Completed(ResponseCompleted {
        response: CompletedResponse { usage: None, incomplete_details: None, status: None },
    }));
    assert!(matches!(out[0], E::Finish { reason: FinishReason::ToolUse, .. }));
}

#[test]
fn flush_emits_finish_only_if_not_already_done() {
    let mut m = ResponsesEventMapper::new();
    let f1 = m.flush();
    assert_eq!(f1.len(), 1);
    let f2 = m.flush();
    assert!(f2.is_empty());
}

fn conversation() -> LanguageModelRequest {
    let mut r = LanguageModelRequest::default();
    r.messages.push(Message::user(s("list")));
    r.messages.push(Message::new(
        Role::Assistant,
        vec![
            ContentBlock::Reasoning { text: s("why"), signature: None },
            ContentBlock::text(s("on")),
            ContentBlock::text(s("it")),
            ContentBlock::ToolUse { id: s("t1"), name: s("bash"), input: json("{\"b\":1,\"a\":2}") },
        ],
    ));
    r.messages.push(Message::new(
        Role::Tool,
        vec![ContentBlock::ToolResult {
            tool_use_id: s("t1"),
            content: Json::Text(s("out")),
            is_error: None,
        }],
    ));
    r
}

#[test]
fn chat_conversation_keeps_call_identifiers() {
    let built = build_chat("m", &conversation()).unwrap();
    assert_eq!(built.messages.len(), 3);
    let assistant = &built.messages[1];
    assert_eq!(assistant.role, "assistant");
    assert_eq!(assistant.content, Json::Text(s("onit")));
    assert_eq!(assistant.tool_calls.len(), 1);
    assert_eq!(assistant.tool_calls[0].id, "t1");
    assert_eq!(assistant.tool_calls[0].kind, "function");
    assert_eq!(assistant.tool_calls[0].function.name, "bash");
    assert_eq!(assistant.tool_calls[0].function.arguments, "{\"a\":2,\"b\":1}");
    let tool = &built.messages[2];
    assert_eq!(tool.role, "tool");
    assert_eq!(tool.tool_call_id, Some(s("t1")));
    assert_eq!(tool.content, Json::Text(s("out")));
}

#[test]
fn responses_conversation_keeps_call_identifiers() {
    let built = build_responses("m", &conversation()).unwrap();
    let calls: Vec<&ResponsesInputItem> = built
        .input
        .iter()
        .filter(|i| !matches!(i, ResponsesInputItem::Message { .. }))
        .collect();
    assert_eq!(
        calls,
        vec![
            &ResponsesInputItem::FunctionCall {
                call_id: s("t1"),
                name: s("bash"),
                arguments: s("{\"a\":2,\"b\":1}"),
            },
            &ResponsesInputItem::FunctionCallOutput { call_id: s("t1"), output: s("out") },
        ]
    );
}

#[test]
fn responses_tool_choices() {
    let mut r = req_with_user("hi");
    r.tool_choice = ToolChoice::Tool { name: s("bash") };
    assert_eq!(
        build_responses("m", &r).unwrap().tool_choice,
        Some(json("{\"type\":\"function\",\"name\":\"bash\"}"))
    );
    r.tool_choice = ToolChoice::Required;
    assert_eq!(build_responses("m", &r).unwrap().tool_choice, Some(Json::Text(s("required"))));
    r.tool_choice = ToolChoice::NoTool;
    assert_eq!(build_responses("m", &r).unwrap().tool_choice, Some(Json::Text(s("none"))));
    r.tool_choice = ToolChoice::Auto;
    assert_eq!(build_responses("m", &r).unwrap().tool_choice, None);
}

#[test]
fn chat_finish_reasons() {
    for (word, reason) in [
        ("stop", FinishReason::Stop),
        ("length", FinishReason::Length),
        ("tool_calls", FinishReason::ToolUse),
        ("function_call", FinishReason::ToolUse),
        ("content_filter", FinishReason::ContentFilter),
        ("new_word", FinishReason::Other),
    ] {
        assert_eq!(map_finish_reason(word), reason, "{word}");
    }
}

#[test]
fn chat_ends_every_open_call_once_and_in_order() {
    let mut m = ChatEventMapper::new();
    let call = |index: u32, id: &str| ChatStreamToolCall {
        index,
        id: Some(s(id)),
        function: None,
    };
    let out = m.map(chunk_with_delta(
        ChatStreamDelta { content: None, tool_calls: vec![call(4, "b"), call(1, "a")] },
        None,
    ));
    assert_eq!(
        out,
        vec![
            E::ToolCallStart { id: s("b"), name: s("") },
            E::ToolCallStart { id: s("a"), name: s("") },
        ]
    );
    m.map(ChatStreamChunk {
        choices: Vec::new(),
        usage: Some(ChatStreamUsage {
            prompt_tokens: 3,
            completion_tokens: 2,
            prompt_tokens_details: Some(PromptTokensDetails { cached_tokens: 1 }),
        }),
    });
    assert_eq!(
        m.flush(),
        vec![
            E::ToolCallEnd { id: s("a"), arguments: None },
            E::ToolCallEnd { id: s("b"), arguments: None },
            E::Finish {
                reason: FinishReason::Stop,
                usage: Usage { input_tokens: 3, output_tokens: 2, cached_input_tokens: 1 },
            },
        ]
    );
    assert!(m.flush().is_empty());
}

#[test]
fn chat_fragment_without_a_call_is_dropped() {
    let mut m = ChatEventMapper::new();
    let out = m.map(chunk_with_delta(
        ChatStreamDelta {
            content: Some(s("")),
            tool_calls: vec![ChatStreamToolCall {
                index: 0,
                id: None,
                function: Some(ChatStreamFn { name: None, arguments: Some(s("{}")) }),
            }],
        },
        None,
    ));
    assert!(out.is_empty());
}

#[test]
fn responses_arguments_come_with_the_end_of_the_call() {
    let mut m = ResponsesEventMapper::new();
    m.map(ResponsesEvent::OutputItemAdded(OutputItemAdded {
        item: item("function_call", "item_1", None, None),
    }));
    let mut done = item("function_call", "item_1", None, None);
    done.arguments = Some(s("{ \"command\": \"ls\" }"));
    let out = m.map(ResponsesEvent::OutputItemDone(OutputItemDone { item: done }));
    assert_eq!(
        out,
        vec![E::ToolCallEnd { id: s("item_1"), arguments: Some(Json::Raw(s("{\"command\":\"ls\"}"))) }]
    );
    let again = ResponsesEvent::OutputItemDone(OutputItemDone {
        item: item("function_call", "item_1", None, None),
    });
    assert!(m.map(again).is_empty());
}

#[test]
fn responses_arguments_that_are_no_json_are_left_out() {
    let mut m = ResponsesEventMapper::new();
    m.map(ResponsesEvent::OutputItemAdded(OutputItemAdded {
        item: item("function_call", "i", Some("c"), Some("f")),
    }));
    let mut done = item("function_call", "i", Some("c"), Some("f"));
    done.arguments = Some(s("{not"));
    assert_eq!(
        m.map(ResponsesEvent::OutputItemDone(OutputItemDone { item: done })),
        vec![E::ToolCallEnd { id: s("c"), arguments: None }]
    );
}

#[test]
fn responses_that_are_not_whole() {
    assert_eq!(map_incomplete("max_output_tokens"), FinishReason::Length);
    assert_eq!(map_incomplete("content_filter"), FinishReason::ContentFilter);
    assert_eq!(map_incomplete("other"), FinishReason::Other);
    let mut m = ResponsesEventMapper::new();
    let out = m.map(ResponsesEvent::Completed(ResponseCompleted {
        response: CompletedResponse {
            usage: Some(ResponsesUsage {
                input_tokens: 1,
                output_tokens: 2,
                input_tokens_details: Some(InputTokensDetails { cached_tokens: 3 }),
            }),
            incomplete_details: Some(IncompleteDetails { reason: s("content_filter") }),
            status: Some(s("incomplete")),
        },
    }));
    assert_eq!(
        out,
        vec![E::Finish {
            reason: FinishReason::ContentFilter,
            usage: Usage { input_tokens: 1, output_tokens: 2, cached_input_tokens: 3 },
        }]
    );
    assert!(m.flush().is_empty());
}

#[test]
fn responses_reasoning_and_failure() {
    let mut m = ResponsesEventMapper::new();
    let out = m.map(ResponsesEvent::ReasoningSummaryDelta(ReasoningSummaryDelta { delta: s("hm") }));
    assert_eq!(out, vec![E::ReasoningDelta { delta: s("hm") }]);
    assert!(m.map(ResponsesEvent::Ignored).is_empty());
    let out = m.map(ResponsesEvent::Failed(ResponseFailed {
        response: FailedResponse {
            error: ResponsesError { message: s("boom"), code: Some(s("server_error")) },
        },
    }));
    assert_eq!(out, vec![E::Error { message: s("server_error: boom") }]);
    assert!(m.flush().is_empty());
}

#[test]
fn event_names_of_responses() {
    for (name, kind) in [
        ("response.output_item.added", ResponsesEventKind::OutputItemAdded),
        ("response.function_call_arguments.delta", ResponsesEventKind::FunctionCallArgsDelta),
        ("response.output_item.done", ResponsesEventKind::OutputItemDone),
        ("response.reasoning_summary_text.delta", ResponsesEventKind::ReasoningSummaryDelta),
        ("response.completed", ResponsesEventKind::Completed),
        ("response.failed", ResponsesEventKind::Failed),
        ("", ResponsesEventKind::Ignored),
    ] {
        assert_eq!(event_kind(name), kind, "{name}");
    }
}

#[test]
fn requests_name_the_key_and_the_organization() {
    let cfg = OpenAIConfig::new(s("key")).with_organization(s("org"));
    let m = OpenAI::with_config(s("gpt-x"), OpenAIApi::Responses, cfg);
    let p = m.prepare(&req_with_user("hi")).unwrap();
    assert_eq!(p.url, "https://api.openai.com/v1/responses");
    let headers: Vec<(&str, &str)> =
        p.headers.iter().map(|h| (h.name.as_str(), h.value.as_str())).collect();
    assert_eq!(
        headers,
        vec![
            ("content-type", "application/json"),
            ("authorization", "Bearer key"),
            ("openai-organization", "org"),
        ]
    );
    assert!(matches!(p.body, OpenAIBody::Responses(_)));
    assert!(matches!(
        OpenAI::chat(s("gpt-x"), s("k")).build_body(&req_with_user("hi")),
        Ok(OpenAIBody::Chat(_))
    ));
}

#[test]
fn headers_that_cannot_be_sent_are_refused() {
    let m = OpenAI::responses(s("gpt-x"), s("a\nb"));
    assert_eq!(m.headers(), Err(ModelError::Auth(s("invalid API key header"))));
    let cfg = OpenAIConfig::new(s("k")).with_organization(s("o\r"));
    let m = OpenAI::with_config(s("gpt-x"), OpenAIApi::Chat, cfg);
    assert_eq!(
        m.headers(),
        Err(ModelError::InvalidRequest(s("invalid organization header")))
    );
}

#[test]
fn each_api_has_its_mapper() {
    let mut m = agent_sdk::openai::chat(s("gpt-x"), s("k")).new_mapper();
    assert_eq!(m.api(), OpenAIApi::Chat);
    let out = m.handle_frame(OpenAIWire::Chat(chunk_with_delta(
        ChatStreamDelta { content: Some(s("x")), tool_calls: Vec::new() },
        None,
    )));
    assert_eq!(out, vec![E::TextDelta { delta: s("x") }]);
    assert_eq!(m.flush().len(), 1);
    let m = agent_sdk::openai::responses(s("gpt-x"), s("k")).new_mapper();
    assert!(matches!(m, Mapper::Responses(_)));
}

#[test]
fn foreign_metadata_is_ignored() {
    let plain = req_with_user("hi");
    let mut r = req_with_user("hi");
    r.provider_metadata.insert(s("anthropic.cache_control"), json("{\"type\":\"ephemeral\"}"));
    assert_eq!(build_chat("m", &r), build_chat("m", &plain));
    assert_eq!(build_responses("m", &r), build_responses("m", &plain));
    r.provider_metadata.insert(s(PARALLEL_TOOL_CALLS_KEY), Json::Text(s("no")));
    assert_eq!(build_chat("m", &r), build_chat("m", &plain));
    let built = agent_sdk::anthropic::request_map::build_request("m", &plain);
    let mut r = req_with_user("hi");
    r.provider_metadata.insert(s(PARALLEL_TOOL_CALLS_KEY), Json::Bool(false));
    assert_eq!(agent_sdk::anthropic::request_map::build_request("m", &r), built);
}
