//! Bytes of a response, in any pieces, into model events.

use agent_sdk::anthropic::event_map::EventMapper;
use agent_sdk::anthropic::models::{
    StreamContentBlock, StreamDelta, StreamError, StreamEvent, StreamMessageDelta,
    StreamMessageStart, StreamUsage,
};
use agent_sdk::event_stream::{EventStream, FrameMapper, Pull, MAX_CONSECUTIVE_PARSE_ERRORS};
use agent_sdk::language_model::event::{FinishReason, LanguageModelEvent as E, Usage};
use agent_sdk::openai::chat::{ChatStreamChoice, ChatStreamChunk, ChatStreamDelta};
use agent_sdk::openai::client::{Mapper, OpenAI, OpenAIWire};
use agent_sdk::openai::responses::{
    CompletedResponse, OutputTextDelta, ResponseCompleted, ResponsesEvent,
};
use agent_sdk::sse::SseFrame;

fn s(text: &str) -> String {
    text.to_string()
}

fn u32_at(v: &serde_json::Value, key: &str) -> u32 {
    v[key].as_u64().unwrap_or(0) as u32
}

fn usage_of(v: &serde_json::Value) -> Option<StreamUsage> {
    if v.is_null() {
        return None;
    }
    Some(StreamUsage {
        input_tokens: u32_at(v, "input_tokens"),
        output_tokens: u32_at(v, "output_tokens"),
        cache_read_input_tokens: u32_at(v, "cache_read_input_tokens"),
        cache_creation_input_tokens: u32_at(v, "cache_creation_input_tokens"),
    })
}

fn text_at(v: &serde_json::Value, key: &str) -> String {
    s(v[key].as_str().unwrap_or(""))
}

fn decode_message(frame: &SseFrame) -> Result<StreamEvent, String> {
    let v: serde_json::Value = serde_json::from_str(&frame.data).map_err(|e| e.to_string())?;
    Ok(match v["type"].as_str().unwrap_or("") {
        "message_start" => StreamEvent::MessageStart {
            message: StreamMessageStart { usage: usage_of(&v["message"]["usage"]) },
        },
        "content_block_start" => StreamEvent::ContentBlockStart {
            index: u32_at(&v, "index"),
            content_block: match v["content_block"]["type"].as_str().unwrap_or("") {
                "text" => StreamContentBlock::Text { text: text_at(&v["content_block"], "text") },
                "thinking" => StreamContentBlock::Thinking {
                    thinking: text_at(&v["content_block"], "thinking"),
                },
                _ => StreamContentBlock::Other,
            },
        },
        "content_block_delta" => StreamEvent::ContentBlockDelta {
            index: u32_at(&v, "index"),
            delta: match v["delta"]["type"].as_str().unwrap_or("") {
                "text_delta" => StreamDelta::TextDelta { text: text_at(&v["delta"], "text") },
                _ => StreamDelta::Other,
            },
        },
        "content_block_stop" => StreamEvent::ContentBlockStop { index: u32_at(&v, "index") },
        "message_delta" => StreamEvent::MessageDelta {
            delta: StreamMessageDelta {
                stop_reason: v["delta"]["stop_reason"].as_str().map(str::to_string),
            },
            usage: usage_of(&v["usage"]),
        },
        "message_stop" => StreamEvent::MessageStop,
        "error" => StreamEvent::Error {
            error: StreamError {
                kind: text_at(&v["error"], "type"),
                message: text_at(&v["error"], "message"),
            },
        },
        _ => StreamEvent::Other,
    })
}

fn decode_chunk(frame: &SseFrame) -> Result<OpenAIWire, String> {
    let v: serde_json::Value = serde_json::from_str(&frame.data).map_err(|e| e.to_string())?;
    Ok(OpenAIWire::Chat(ChatStreamChunk {
        choices: vec![ChatStreamChoice {
            delta: ChatStreamDelta {
                content: v["content"].as_str().map(str::to_string),
                tool_calls: Vec::new(),
            },
            finish_reason: v["finish"].as_str().map(str::to_string),
        }],
        usage: None,
    }))
}

/// Everything that a stream gives, cancelled after some events if at all.
fn collect<M: FrameMapper>(
    mut stream: EventStream<M>,
    decode: fn(&SseFrame) -> Result<M::Wire, String>,
    bytes: &[u8],
    piece: usize,
    cancel_after: Option<usize>,
) -> Vec<Pull> {
    let mut pieces = bytes.chunks(piece);
    let mut got = Vec::new();
    loop {
        let mut pull = stream.next();
        if pull == Pull::CheckCancel {
            pull = stream.cancel_checked(cancel_after.map_or(false, |n| got.len() >= n));
        }
        match pull {
            Pull::End => return got,
            Pull::ReadBytes => match pieces.next() {
                Some(piece) => {
                    let frames = stream.chunk(piece);
                    let decoded = frames.iter().map(decode).collect();
                    stream.decoded(decoded);
                }
                None => stream.ended(),
            },
            other => got.push(other),
        }
    }
}

const MESSAGE: &str = "event: message_start\n\
data: {\"type\":\"message_start\",\"message\":{\"usage\":{\"input_tokens\":12,\"output_tokens\":1}}}\n\n\
data: {\"type\":\"content_block_start\",\"index\":0,\"content_block\":{\"type\":\"text\",\"text\":\"\"}}\n\n\
data: {\"type\":\"content_block_delta\",\"index\":0,\"delta\":{\"type\":\"text_delta\",\"text\":\"Hello, \"}}\n\n\
: heartbeat\n\n\
data: {\"type\":\"content_block_delta\",\"index\":0,\"delta\":{\"type\":\"text_delta\",\"text\":\"world\"}}\n\n\
data: {\"type\":\"content_block_stop\",\"index\":0}\n\n\
data: {\"type\":\"message_delta\",\"delta\":{\"stop_reason\":\"end_turn\"},\"usage\":{\"output_tokens\":7}}\n\n\
event: message_stop\ndata: {\"type\":\"message_stop\"}\n\n";

#[test]
fn events_do_not_depend_on_the_pieces() {
    let want = vec![
        Pull::Event(E::TextDelta { delta: s("Hello, ") }),
        Pull::Event(E::TextDelta { delta: s("world") }),
        Pull::Event(E::Finish {
            reason: FinishReason::Stop,
            usage: Usage { input_tokens: 12, output_tokens: 7, cached_input_tokens: 0 },
        }),
    ];
    for piece in [1, 3, 64, MESSAGE.len()] {
        let stream = EventStream::new(EventMapper::new());
        assert_eq!(collect(stream, decode_message, MESSAGE.as_bytes(), piece, None), want);
    }
}

#[test]
fn cancelling_ends_a_stream() {
    let truncated = MESSAGE.split("event: message_stop").next().unwrap();
    let stream = EventStream::new(EventMapper::new());
    let got = collect(stream, decode_message, truncated.as_bytes(), 400, Some(1));
    assert_eq!(got.last(), Some(&Pull::Cancelled));
    assert_eq!(got.iter().filter(|p| **p == Pull::Cancelled).count(), 1);
}

#[test]
fn garbage_ends_a_stream_and_nothing_follows() {
    let mut body = String::new();
    for i in 0..10 {
        body.push_str(&format!("event: garbage\ndata: not-json-{i}\n\n"));
    }
    body.push_str(MESSAGE);
    let stream = EventStream::new(EventMapper::new());
    let got = collect(stream, decode_message, body.as_bytes(), body.len(), None);
    assert_eq!(got.len(), 1);
    match &got[0] {
        Pull::Event(E::Error { message }) => {
            assert!(message.starts_with("8 consecutive malformed SSE frames; last error: "));
        }
        other => panic!("expected an error, got {other:?}"),
    }
}

#[test]
fn a_good_frame_forgives_the_bad_ones() {
    let mut body = String::new();
    for _ in 0..3 {
        for _ in 1..MAX_CONSECUTIVE_PARSE_ERRORS {
            body.push_str("data: not-json\n\n");
        }
        body.push_str("data: {\"type\":\"ping\"}\n\n");
    }
    let stream = EventStream::new(EventMapper::new());
    assert_eq!(
        collect(stream, decode_message, body.as_bytes(), 16, None),
        vec![Pull::Event(E::Finish { reason: FinishReason::Other, usage: Usage::default() })]
    );
}

#[test]
fn a_message_that_breaks_off_is_finished() {
    let truncated = MESSAGE.split("event: message_stop").next().unwrap();
    let stream = EventStream::new(EventMapper::new());
    let got = collect(stream, decode_message, truncated.as_bytes(), 100, None);
    assert_eq!(
        got,
        vec![
            Pull::Event(E::TextDelta { delta: s("Hello, ") }),
            Pull::Event(E::TextDelta { delta: s("world") }),
            Pull::Event(E::Finish {
                reason: FinishReason::Other,
                usage: Usage { input_tokens: 12, output_tokens: 7, cached_input_tokens: 0 },
            }),
        ]
    );
}

#[test]
fn nothing_follows_a_finish() {
    let twice = format!("{MESSAGE}{MESSAGE}");
    for piece in [7, twice.len()] {
        let stream = EventStream::new(EventMapper::new());
        let got = collect(stream, decode_message, twice.as_bytes(), piece, None);
        assert_eq!(got.len(), 3);
        assert!(matches!(got[2], Pull::Event(E::Finish { reason: FinishReason::Stop, .. })));
    }
    let body = "event: response.completed\ndata: {}\n\n\
                event: response.output_text.delta\ndata: {\"delta\":\"late\"}\n\n\
                event: response.completed\ndata: {}\n\n";
    let mapper = OpenAI::responses(s("gpt-x"), s("k")).new_mapper();
    let got = collect(EventStream::new(mapper), decode_response, body.as_bytes(), body.len(), None);
    assert_eq!(got.len(), 1);
    assert!(matches!(got[0], Pull::Event(E::Finish { .. })));
}

#[test]
fn nothing_follows_an_error_of_the_provider() {
    let body = format!(
        "data: {{\"type\":\"error\",\"error\":{{\"type\":\"overloaded_error\",\"message\":\"busy\"}}}}\n\n{MESSAGE}"
    );
    let stream = EventStream::new(EventMapper::new());
    let got = collect(stream, decode_message, body.as_bytes(), body.len(), None);
    assert_eq!(got, vec![Pull::Event(E::Error { message: s("overloaded_error: busy") })]);
}

#[test]
fn the_end_marker_is_no_event() {
    let body = "data: {\"content\":\"hi\"}\n\ndata: {\"finish\":\"stop\"}\n\ndata: [DONE]\n\n";
    let mapper: Mapper = OpenAI::chat(s("gpt-x"), s("k")).new_mapper();
    let got = collect(EventStream::new(mapper), decode_chunk, body.as_bytes(), 5, None);
    assert_eq!(
        got,
        vec![
            Pull::Event(E::TextDelta { delta: s("hi") }),
            Pull::Event(E::Finish { reason: FinishReason::Stop, usage: Usage::default() }),
        ]
    );
}

#[test]
fn a_stream_that_failed_is_over() {
    let mut stream = EventStream::new(EventMapper::new());
    stream.chunk(b"data: x");
    stream.failed();
    assert_eq!(stream.next(), Pull::End);
    stream.ended();
    assert_eq!(stream.next(), Pull::End);
}

#[test]
fn chat_looks_for_cancellation_before_it_gives_an_event() {
    let mut stream = EventStream::new(OpenAI::chat(s("m"), s("k")).new_mapper());
    let frames = stream.chunk(b"data: {\"content\":\"hi\"}\n\n");
    stream.decoded(frames.iter().map(decode_chunk).collect());
    assert_eq!(stream.next(), Pull::CheckCancel);
    assert_eq!(stream.cancel_checked(true), Pull::Cancelled);
    assert_eq!(stream.next(), Pull::End);
}

fn decode_response(frame: &SseFrame) -> Result<OpenAIWire, String> {
    let v: serde_json::Value = serde_json::from_str(&frame.data).map_err(|e| e.to_string())?;
    Ok(OpenAIWire::Responses(match frame.event.as_str() {
        "response.output_text.delta" => {
            ResponsesEvent::OutputTextDelta(OutputTextDelta { delta: text_at(&v, "delta") })
        }
        "response.completed" => ResponsesEvent::Completed(ResponseCompleted {
            response: CompletedResponse { usage: None, incomplete_details: None, status: None },
        }),
        _ => ResponsesEvent::Ignored,
    }))
}

#[test]
fn an_end_that_the_provider_did_not_tell_is_told() {
    let mapper = OpenAI::chat(s("gpt-x"), s("k")).new_mapper();
    let body = "data: {\"content\":\"hi\"}\n\ndata: {\"cont";
    let got = collect(EventStream::new(mapper), decode_chunk, body.as_bytes(), 7, None);
    assert_eq!(
        got,
        vec![
            Pull::Event(E::TextDelta { delta: s("hi") }),
            Pull::Event(E::Finish { reason: FinishReason::Stop, usage: Usage::default() }),
        ]
    );
    let mapper = OpenAI::responses(s("gpt-x"), s("k")).new_mapper();
    let body = "event: response.output_text.delta\ndata: {\"delta\":\"hi\"}\n\n\
                event: response.in_progress\ndata: {}\n\n";
    let got = collect(EventStream::new(mapper), decode_response, body.as_bytes(), 9, None);
    assert_eq!(
        got,
        vec![
            Pull::Event(E::TextDelta { delta: s("hi") }),
            Pull::Event(E::Finish { reason: FinishReason::Other, usage: Usage::default() }),
        ]
    );
}

#[test]
fn garbage_ends_a_chat_with_an_error_alone() {
    let mapper = OpenAI::chat(s("gpt-x"), s("k")).new_mapper();
    let body = "data: x\n\n".repeat(9);
    let got = collect(EventStream::new(mapper), decode_chunk, body.as_bytes(), 4, None);
    assert_eq!(got.len(), 1);
    assert!(matches!(&got[0], Pull::Event(E::Error { .. })));
}
