//! Requests, messages, tools, events and errors.

use agent_sdk::json::Json;
use agent_sdk::language_model::error::ModelError;
use agent_sdk::language_model::event::{FinishReason, LanguageModelEvent, Usage};
use agent_sdk::language_model::message::{ContentBlock, Message, Role};
use agent_sdk::language_model::request::LanguageModelRequest;
use agent_sdk::language_model::tool::{ToolChoice, ToolSpec};

fn s(text: &str) -> String {
    text.to_string()
}

#[test]
fn tool_choice_default_is_auto() {
    assert!(matches!(ToolChoice::default(), ToolChoice::Auto));
}

#[test]
fn a_default_request_is_empty() {
    let r = LanguageModelRequest::default();
    assert!(r.messages.is_empty());
    assert_eq!(r.system, None);
    assert!(r.tools.is_empty());
    assert_eq!(r.tool_choice, ToolChoice::Auto);
    assert_eq!(r.temperature, None);
    assert_eq!(r.max_tokens, None);
    assert!(r.stop.is_empty());
    assert_eq!(r.provider_metadata.len(), 0);
}

#[test]
fn messages_hold_one_text_block() {
    for (message, role) in [
        (Message::user(s("hello")), Role::User),
        (Message::system(s("hello")), Role::System),
        (Message::assistant(s("hello")), Role::Assistant),
    ] {
        assert_eq!(message, Message::new(role, vec![ContentBlock::text(s("hello"))]));
    }
}

#[test]
fn clones_are_equal() {
    let mut r = LanguageModelRequest::default();
    r.messages.push(Message::new(
        Role::Assistant,
        vec![
            ContentBlock::Reasoning { text: s("step 1"), signature: Some(s("sig_abc")) },
            ContentBlock::ToolUse { id: s("toolu_1"), name: s("bash"), input: Json::Raw(s("{\"command\":\"ls\"}")) },
            ContentBlock::ToolResult { tool_use_id: s("toolu_1"), content: Json::Text(s("file1\nfile2")), is_error: Some(false) },
        ],
    ));
    r.system = Some(s("be terse"));
    r.tools.push(ToolSpec::new(s("echo"), s("echoes input"), Json::Raw(s("{\"type\":\"object\"}"))));
    r.tool_choice = ToolChoice::Tool { name: s("echo") };
    r.max_tokens = Some(128);
    r.stop.push(s("END"));
    r.provider_metadata.insert(s("anthropic.cache_control"), Json::Raw(s("{\"ttl\":\"5m\"}")));
    assert_eq!(r.clone(), r);
    let e = LanguageModelEvent::ToolCallEnd { id: s("toolu_1"), arguments: Some(Json::Null) };
    assert_eq!(e.clone(), e);
}

#[test]
fn model_errors_in_words() {
    let shown = |e: ModelError| e.to_text();
    assert_eq!(shown(ModelError::InvalidRequest(s("x"))), "invalid request: x");
    assert_eq!(shown(ModelError::Auth(s("x"))), "authentication failed: x");
    assert_eq!(
        shown(ModelError::RateLimit { message: s("x"), retry_after_ms: Some(1) }),
        "rate limited: x"
    );
    assert_eq!(shown(ModelError::ContextLengthExceeded(s("x"))), "context length exceeded: x");
    assert_eq!(shown(ModelError::Provider(s("x"))), "provider error: x");
    assert_eq!(shown(ModelError::Transport(s("x"))), "transport error: x");
    assert_eq!(shown(ModelError::Cancelled), "request cancelled");
    assert_eq!(shown(ModelError::Other(s("x"))), "x");
}

#[test]
fn usage_default_is_zero() {
    assert_eq!(
        Usage::default(),
        Usage { input_tokens: 0, output_tokens: 0, cached_input_tokens: 0 }
    );
    assert_ne!(FinishReason::Stop, FinishReason::Other);
}
