//! The Messages API: requests, streamed events and the client.

use agent_sdk::anthropic::client::{Anthropic, AnthropicConfig};
use agent_sdk::anthropic::event_map::{map_stop_reason, EventMapper};
use agent_sdk::anthropic::models::{
    StreamContentBlock, StreamDelta, StreamError, StreamEvent, StreamMessageDelta,
    StreamMessageStart, StreamUsage, WireContent,
};
use agent_sdk::anthropic::request_map::{
    build_request, wire_role, CACHE_CONTROL_KEY, DEFAULT_MAX_TOKENS,
};
use agent_sdk::json::Json;
use agent_sdk::language_model::error::ModelError;
use agent_sdk::language_model::event::{FinishReason, LanguageModelEvent as E, Usage};
use agent_sdk::language_model::message::{ContentBlock, Message, Role};
use agent_sdk::language_model::request::LanguageModelRequest;
use agent_sdk::language_model::tool::{ToolChoice, ToolSpec};
use agent_sdk::openai::client::OpenAI;
use agent_sdk::time::Timeout;

fn s(text: &str) -> String {
    text.to_string()
}

fn json(text: &str) -> Json {
    Json::parse(text).unwrap()
}

fn req_with_user(text: &str) -> LanguageModelRequest {
    let mut req = LanguageModelRequest::default();
    req.messages.push(Message::user(s(text)));
    req
}

#[test]
fn endpoint_strips_trailing_slash() {
    let cfg = AnthropicConfig::new(s("k")).with_base_url(s("http://x/"));
    let a = Anthropic::with_config(s("m"), cfg);
    assert_eq!(a.endpoint(), "http://x/v1/messages");
}

#[test]
fn client_provider_and_model_ids() {
    let a = Anthropic::new(s("sonnet-4-6"), s("k"));
    assert_eq!(a.provider_id(), "anthropic");
    assert_eq!(a.model_id(), "sonnet-4-6");

    let m = OpenAI::chat(s("gpt-x"), s("k"));
    assert_eq!(m.provider_id(), "openai");
    assert_eq!(m.model_id(), "gpt-x");
}

#[test]
fn text_lifecycle_emits_deltas_then_finish() {
    let mut m = EventMapper::new();
    let out = m.map(StreamEvent::MessageStart {
        message: StreamMessageStart {
            usage: Some(StreamUsage { input_tokens: 10, ..Default::default() }),
        },
    });
    assert!(out.is_empty());
    let out = m.map(StreamEvent::ContentBlockStart {
        index: 0,
        content_block: StreamContentBlock::Text { text: String::new() },
    });
    assert!(out.is_empty());
    let out = m.map(StreamEvent::ContentBlockDelta {
        index: 0,
        delta: StreamDelta::TextDelta { text: s("hello") },
    });
    assert!(matches!(out.first(), Some(E::TextDelta { delta }) if delta == "hello"));
    let out = m.map(StreamEvent::ContentBlockStop { index: 0 });
    assert!(out.is_empty());
    let out = m.map(StreamEvent::MessageDelta {
        delta: StreamMessageDelta { stop_reason: Some(s("end_turn")) },
        usage: Some(StreamUsage { output_tokens: 5, ..Default::default() }),
    });
    assert!(out.is_empty());
    let out = m.map(StreamEvent::MessageStop);
    match out.first().unwrap() {
        E::Finish { reason, usage } => {
            assert_eq!(*reason, FinishReason::Stop);
            assert_eq!(usage.input_tokens, 10);
            assert_eq!(usage.output_tokens, 5);
        }
        other => panic!("expected finish, got {:?}", other),
    }
}

#[test]
fn tool_use_lifecycle_emits_start_delta_end() {
    let mut m = EventMapper::new();
    let out = m.map(StreamEvent::ContentBlockStart {
        index: 1,
        content_block: StreamContentBlock::ToolUse {
            id: s("toolu_1"),
            name: s("bash"),
            input: Json::Null,
        },
    });
    assert!(
        matches!(out.first(), Some(E::ToolCallStart { id, name }) if id == "toolu_1" && name == "bash")
    );

    let out = m.map(StreamEvent::ContentBlockDelta {
        index: 1,
        delta: StreamDelta::InputJsonDelta { partial_json: s("{\"cmd\":") },
    });
    assert!(matches!(out.first(), Some(E::ToolCallDelta { .. })));

    let out = m.map(StreamEvent::ContentBlockStop { index: 1 });
    assert!(matches!(out.first(), Some(E::ToolCallEnd { id, .. }) if id == "toolu_1"));
}

#[test]
fn stop_reason_tool_use_maps_to_tooluse_finish() {
    let mut m = EventMapper::new();
    m.map(StreamEvent::MessageDelta {
        delta: StreamMessageDelta { stop_reason: Some(s("tool_use")) },
        usage: None,
    });
    let out = m.map(StreamEvent::MessageStop);
    match out.first().unwrap() {
        E::Finish { reason, .. } => assert_eq!(*reason, FinishReason::ToolUse),
        _ => panic!(),
    }
}

#[test]
fn unknown_event_is_dropped() {
    let mut m = EventMapper::new();
    assert!(m.map(StreamEvent::Ping).is_empty());
    assert!(m.map(StreamEvent::Other).is_empty());
}

#[test]
fn hoists_system_into_top_level() {
    let mut req = req_with_user("hi");
    req.system = Some(s("be terse"));
    let built = build_request("sonnet-4-6", &req).unwrap();
    let sys: serde_json::Value = serde_json::from_str(&built.system.unwrap().to_text()).unwrap();
    assert_eq!(sys[0]["type"], "text");
    assert_eq!(sys[0]["text"], "be terse");
}

#[test]
fn merges_system_role_messages_into_system() {
    let mut req = LanguageModelRequest::default();
    req.messages.extend([Message::system(s("extra rules")), Message::user(s("hi"))]);
    req.system = Some(s("base"));
    let built = build_request("sonnet-4-6", &req).unwrap();
    let sys: serde_json::Value = serde_json::from_str(&built.system.unwrap().to_text()).unwrap();
    assert_eq!(sys.as_array().unwrap().len(), 2);
    assert_eq!(built.messages.len(), 1);
    assert_eq!(built.messages[0].role, "user");
}

#[test]
fn cache_control_attaches_to_last_user_text_block() {
    let mut req = LanguageModelRequest::default();
    req.messages.extend([Message::user(s("first")), Message::user(s("second"))]);
    req.provider_metadata.insert(s(CACHE_CONTROL_KEY), json("{\"type\": \"ephemeral\"}"));
    let built = build_request("sonnet-4-6", &req).unwrap();
    let last = &built.messages[1].content[0];
    match last {
        WireContent::Text { cache_control, .. } => {
            assert_eq!(cache_control.as_ref().unwrap(), &json("{\"type\":\"ephemeral\"}"));
        }
        _ => panic!("expected text"),
    }
    let first = &built.messages[0].content[0];
    match first {
        WireContent::Text { cache_control, .. } => assert!(cache_control.is_none()),
        _ => panic!("expected text"),
    }
}

#[test]
fn request_map_maps_tool_choice_variants() {
    let mut req = req_with_user("hi");
    req.tool_choice = ToolChoice::Required;
    let built = build_request("m", &req).unwrap();
    assert_eq!(built.tool_choice.unwrap(), json("{\"type\":\"any\"}"));

    req.tool_choice = ToolChoice::Tool { name: s("bash") };
    let built = build_request("m", &req).unwrap();
    assert_eq!(built.tool_choice.unwrap(), json("{\"type\":\"tool\",\"name\":\"bash\"}"));

    req.tool_choice = ToolChoice::NoTool;
    let built = build_request("m", &req).unwrap();
    assert_eq!(built.tool_choice.unwrap(), json("{\"type\":\"none\"}"));

    req.tool_choice = ToolChoice::Auto;
    let built = build_request("m", &req).unwrap();
    assert!(built.tool_choice.is_none());
}

#[test]
fn max_tokens_defaults_when_unset() {
    let req = req_with_user("hi");
    let built = build_request("m", &req).unwrap();
    assert_eq!(built.max_tokens, DEFAULT_MAX_TOKENS);
}

#[test]
fn tools_passthrough() {
    let mut req = req_with_user("hi");
    req.tools.push(ToolSpec::new(s("echo"), s("d"), json("{\"type\":\"object\"}")));
    let built = build_request("m", &req).unwrap();
    assert_eq!(built.tools.len(), 1);
    assert_eq!(built.tools[0].name, "echo");
}

#[test]
fn system_texts_are_quoted_blocks_in_order() {
    let mut req = LanguageModelRequest::default();
    req.messages.extend([
        Message::system(s("say \"hi\"\n")),
        Message::user(s("x")),
        Message::new(
            Role::System,
            vec![ContentBlock::text(s("two")), ContentBlock::text(s("three"))],
        ),
    ]);
    req.system = Some(s("one"));
    let built = build_request("m", &req).unwrap();
    assert_eq!(
        built.system.unwrap().to_text(),
        "[{\"text\":\"one\",\"type\":\"text\"},{\"text\":\"say \\\"hi\\\"\\n\",\"type\":\"text\"},\
         {\"text\":\"two\",\"type\":\"text\"},{\"text\":\"three\",\"type\":\"text\"}]"
    );
    assert_eq!(build_request("m", &req_with_user("hi")).unwrap().system, None);
}

#[test]
fn every_block_keeps_its_identifiers() {
    let mut req = LanguageModelRequest::default();
    req.messages.push(Message::new(
        Role::Assistant,
        vec![
            ContentBlock::Reasoning { text: s("why"), signature: Some(s("sig")) },
            ContentBlock::ToolUse { id: s("t1"), name: s("bash"), input: json("{\"a\":1}") },
        ],
    ));
    req.messages.push(Message::new(
        Role::Tool,
        vec![ContentBlock::ToolResult {
            tool_use_id: s("t1"),
            content: Json::Text(s("out")),
            is_error: Some(true),
        }],
    ));
    let built = build_request("m", &req).unwrap();
    assert_eq!(built.model, "m");
    assert!(built.stream);
    assert_eq!(built.messages[0].role, "assistant");
    assert_eq!(
        built.messages[0].content,
        vec![
            WireContent::Thinking { thinking: s("why"), signature: Some(s("sig")) },
            WireContent::ToolUse { id: s("t1"), name: s("bash"), input: json("{\"a\":1}") },
        ]
    );
    assert_eq!(built.messages[1].role, "user");
    assert_eq!(
        built.messages[1].content,
        vec![WireContent::ToolResult {
            tool_use_id: s("t1"),
            content: Json::Text(s("out")),
            is_error: Some(true),
        }]
    );
}

#[test]
fn the_hint_stands_on_one_block_of_the_last_message_with_text() {
    let mut req = LanguageModelRequest::default();
    req.messages.push(Message::new(
        Role::User,
        vec![ContentBlock::text(s("a")), ContentBlock::text(s("b"))],
    ));
    req.messages.push(Message::new(
        Role::User,
        vec![ContentBlock::ToolResult { tool_use_id: s("t"), content: Json::Null, is_error: None }],
    ));
    req.provider_metadata.insert(s(CACHE_CONTROL_KEY), json("{\"type\":\"ephemeral\"}"));
    let built = build_request("m", &req).unwrap();
    assert_eq!(
        built.messages[0].content,
        vec![
            WireContent::Text { text: s("a"), cache_control: None },
            WireContent::Text {
                text: s("b"),
                cache_control: Some(json("{\"type\":\"ephemeral\"}")),
            },
        ]
    );
    req.provider_metadata.insert(s(CACHE_CONTROL_KEY), Json::Null);
    let built = build_request("m", &req).unwrap();
    assert_eq!(
        built.messages[0].content[1],
        WireContent::Text { text: s("b"), cache_control: None }
    );
}

#[test]
fn roles_on_the_wire() {
    assert_eq!(wire_role(&Message::user(s("x"))), Ok("user"));
    assert_eq!(wire_role(&Message::assistant(s("x"))), Ok("assistant"));
    assert_eq!(wire_role(&Message::new(Role::Tool, Vec::new())), Ok("user"));
}

#[test]
fn stop_reasons() {
    for (word, reason) in [
        (Some("end_turn"), FinishReason::Stop),
        (Some("stop_sequence"), FinishReason::Stop),
        (Some("max_tokens"), FinishReason::Length),
        (Some("tool_use"), FinishReason::ToolUse),
        (Some("refusal"), FinishReason::ContentFilter),
        (Some("new_word"), FinishReason::Other),
        (None, FinishReason::Stop),
    ] {
        assert_eq!(map_stop_reason(word), reason, "{word:?}");
    }
}

#[test]
fn thinking_gives_reasoning_and_its_signature() {
    let mut m = EventMapper::new();
    m.map(StreamEvent::ContentBlockStart {
        index: 0,
        content_block: StreamContentBlock::Thinking { thinking: String::new() },
    });
    let out = m.map(StreamEvent::ContentBlockDelta {
        index: 0,
        delta: StreamDelta::ThinkingDelta { thinking: s("hm") },
    });
    assert_eq!(out, vec![E::ReasoningDelta { delta: s("hm") }]);
    let out = m.map(StreamEvent::ContentBlockDelta {
        index: 0,
        delta: StreamDelta::SignatureDelta { signature: s("sig") },
    });
    assert_eq!(out, vec![E::ReasoningSignature { signature: s("sig") }]);
    assert!(m.map(StreamEvent::ContentBlockStop { index: 0 }).is_empty());
}

#[test]
fn arguments_of_a_block_that_never_began_are_dropped() {
    let mut m = EventMapper::new();
    let out = m.map(StreamEvent::ContentBlockDelta {
        index: 3,
        delta: StreamDelta::InputJsonDelta { partial_json: s("{}") },
    });
    assert!(out.is_empty());
    assert!(m.map(StreamEvent::ContentBlockStop { index: 3 }).is_empty());
}

#[test]
fn an_error_event_tells_its_kind() {
    let mut m = EventMapper::new();
    let out = m.map(StreamEvent::Error {
        error: StreamError { kind: s("overloaded_error"), message: s("busy") },
    });
    assert_eq!(out, vec![E::Error { message: s("overloaded_error: busy") }]);
}

#[test]
fn counts_never_fall() {
    let mut m = EventMapper::new();
    m.merge_usage(&StreamUsage {
        input_tokens: 9,
        output_tokens: 1,
        cache_read_input_tokens: 4,
        cache_creation_input_tokens: 0,
    });
    m.merge_usage(&StreamUsage { output_tokens: 7, ..Default::default() });
    assert_eq!(
        m.map(StreamEvent::MessageStop),
        vec![E::Finish {
            reason: FinishReason::Stop,
            usage: Usage { input_tokens: 9, output_tokens: 7, cached_input_tokens: 4 },
        }]
    );
}

#[test]
fn the_mapper_tells_an_end_once() {
    let mut m = EventMapper::new();
    m.map(StreamEvent::MessageStart {
        message: StreamMessageStart {
            usage: Some(StreamUsage { input_tokens: 3, ..Default::default() }),
        },
    });
    let usage = Usage { input_tokens: 3, output_tokens: 0, cached_input_tokens: 0 };
    assert_eq!(m.flush(), vec![E::Finish { reason: FinishReason::Other, usage }]);
    assert!(m.flush().is_empty());

    let mut m = EventMapper::new();
    assert_eq!(m.map(StreamEvent::MessageStop).len(), 1);
    assert!(m.flush().is_empty());

    let mut m = EventMapper::new();
    let error = StreamError { kind: s("overloaded_error"), message: s("busy") };
    assert_eq!(m.map(StreamEvent::Error { error }).len(), 1);
    assert!(m.flush().is_empty());
}

#[test]
fn a_request_carries_the_key_and_the_version() {
    let a = Anthropic::new(s("sonnet-4-6"), s("key"));
    assert_eq!(a.model_id(), "sonnet-4-6");
    assert_eq!(a.config().timeout, Some(Timeout { secs: 120, nanos: 0 }));
    let p = a.prepare(&req_with_user("hi")).unwrap();
    assert_eq!(p.url, "https://api.anthropic.com/v1/messages");
    let headers: Vec<(&str, &str)> =
        p.headers.iter().map(|h| (h.name.as_str(), h.value.as_str())).collect();
    assert_eq!(
        headers,
        vec![
            ("content-type", "application/json"),
            ("anthropic-version", "2023-06-01"),
            ("x-api-key", "key"),
        ]
    );
    assert_eq!(p.body, build_request("sonnet-4-6", &req_with_user("hi")).unwrap());
}

#[test]
fn a_key_that_is_no_header_is_refused() {
    for key in ["a\nb", "a\u{7f}", "\0"] {
        let a = Anthropic::new(s("m"), s(key));
        assert_eq!(a.headers(), Err(ModelError::Auth(s("invalid API key header"))));
        assert!(a.prepare(&req_with_user("hi")).is_err());
    }
    assert!(Anthropic::new(s("m"), s("tab\there \u{e9}")).headers().is_ok());
}
