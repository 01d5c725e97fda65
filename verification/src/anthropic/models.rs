//! What goes over the wire of the Messages API: the request, and the events of the stream.

use crate::json::{Json, JsonView};
use crate::language_model::request::Temperature;
use vstd::prelude::*;
use vstd::string::*;

verus! {

/// The body of a request.
#[derive(Debug, PartialEq, Eq)]
pub struct MessagesRequest {
    pub model: String,
    pub messages: Vec<WireMessage>,
    /// The system prompt, as an array of text blocks.
    pub system: Option<Json>,
    pub tools: Vec<WireTool>,
    pub tool_choice: Option<Json>,
    pub temperature: Option<Temperature>,
    pub max_tokens: u32,
    pub stop_sequences: Vec<String>,
    pub stream: bool,
}

/// Model of a request's body.
#[verifier::ext_equal]
pub struct MessagesRequestView {
    pub model: Seq<char>,
    pub messages: Seq<WireMessageView>,
    pub system: Option<JsonView>,
    pub tools: Seq<WireToolView>,
    pub tool_choice: Option<JsonView>,
    pub temperature: Option<Temperature>,
    pub max_tokens: u32,
    pub stop_sequences: Seq<Seq<char>>,
    pub stream: bool,
}

impl View for MessagesRequest {
    type V = MessagesRequestView;

    open spec fn view(&self) -> MessagesRequestView {
        MessagesRequestView {
            model: self.model@,
            messages: self.messages.deep_view(),
            system: self.system.deep_view(),
            tools: self.tools.deep_view(),
            tool_choice: self.tool_choice.deep_view(),
            temperature: self.temperature,
            max_tokens: self.max_tokens,
            stop_sequences: self.stop_sequences.deep_view(),
            stream: self.stream,
        }
    }
}

impl DeepView for MessagesRequest {
    type V = MessagesRequestView;

    open spec fn deep_view(&self) -> MessagesRequestView {
        self@
    }
}

/// A message. The role is `user` or `assistant`.
#[derive(Debug, PartialEq, Eq)]
pub struct WireMessage {
    pub role: &'static str,
    pub content: Vec<WireContent>,
}

/// Model of a message.
#[verifier::ext_equal]
pub struct WireMessageView {
    pub role: Seq<char>,
    pub content: Seq<WireContentView>,
}

impl View for WireMessage {
    type V = WireMessageView;

    open spec fn view(&self) -> WireMessageView {
        WireMessageView { role: self.role@, content: self.content.deep_view() }
    }
}

impl DeepView for WireMessage {
    type V = WireMessageView;

    open spec fn deep_view(&self) -> WireMessageView {
        self@
    }
}

/// A content block.
#[derive(Debug, PartialEq, Eq)]
pub enum WireContent {
    Text { text: String, cache_control: Option<Json> },
    ToolUse { id: String, name: String, input: Json },
    ToolResult { tool_use_id: String, content: Json, is_error: Option<bool> },
    Thinking { thinking: String, signature: Option<String> },
}

/// Model of a content block.
#[verifier::ext_equal]
pub enum WireContentView {
    Text { text: Seq<char>, cache_control: Option<JsonView> },
    ToolUse { id: Seq<char>, name: Seq<char>, input: JsonView },
    ToolResult { tool_use_id: Seq<char>, content: JsonView, is_error: Option<bool> },
    Thinking { thinking: Seq<char>, signature: Option<Seq<char>> },
}

impl View for WireContent {
    type V = WireContentView;

    open spec fn view(&self) -> WireContentView {
        match *self {
            WireContent::Text { text, cache_control } => WireContentView::Text {
                text: text@,
                cache_control: cache_control.deep_view(),
            },
            WireContent::ToolUse { id, name, input } => WireContentView::ToolUse {
                id: id@,
                name: name@,
                input: input@,
            },
            WireContent::ToolResult { tool_use_id, content, is_error } => {
                WireContentView::ToolResult { tool_use_id: tool_use_id@, content: content@, is_error }
            },
            WireContent::Thinking { thinking, signature } => WireContentView::Thinking {
                thinking: thinking@,
                signature: signature.deep_view(),
            },
        }
    }
}

impl DeepView for WireContent {
    type V = WireContentView;

    open spec fn deep_view(&self) -> WireContentView {
        self@
    }
}

/// A tool.
#[derive(Debug, PartialEq, Eq)]
pub struct WireTool {
    pub name: String,
    pub description: String,
    pub input_schema: Json,
}

/// Model of a tool.
#[verifier::ext_equal]
pub struct WireToolView {
    pub name: Seq<char>,
    pub description: Seq<char>,
    pub input_schema: JsonView,
}

impl View for WireTool {
    type V = WireToolView;

    open spec fn view(&self) -> WireToolView {
        WireToolView {
            name: self.name@,
            description: self.description@,
            input_schema: self.input_schema@,
        }
    }
}

impl DeepView for WireTool {
    type V = WireToolView;

    open spec fn deep_view(&self) -> WireToolView {
        self@
    }
}

/// An event of the stream.
#[allow(inconsistent_fields)]
#[derive(Debug, PartialEq, Eq)]
pub enum StreamEvent {
    MessageStart { message: StreamMessageStart },
    ContentBlockStart { index: u32, content_block: StreamContentBlock },
    ContentBlockDelta { index: u32, delta: StreamDelta },
    ContentBlockStop { index: u32 },
    MessageDelta { delta: StreamMessageDelta, usage: Option<StreamUsage> },
    MessageStop,
    Ping,
    Error { error: StreamError },
    /// An event of a kind that is not known.
    Other,
}

/// The start of a message.
#[derive(Debug, PartialEq, Eq)]
pub struct StreamMessageStart {
    pub usage: Option<StreamUsage>,
}

/// The start of a content block.
#[derive(Debug, PartialEq, Eq)]
pub enum StreamContentBlock {
    Text { text: String },
    /// A tool call. Its arguments arrive in deltas.
    ToolUse { id: String, name: String, input: Json },
    Thinking { thinking: String },
    /// A block of a kind that is not known.
    Other,
}

/// A fragment of a content block.
#[derive(Debug, PartialEq, Eq)]
pub enum StreamDelta {
    TextDelta { text: String },
    InputJsonDelta { partial_json: String },
    ThinkingDelta { thinking: String },
    SignatureDelta { signature: String },
    /// A fragment of a kind that is not known.
    Other,
}

/// News of the message as a whole.
#[derive(Debug, PartialEq, Eq)]
pub struct StreamMessageDelta {
    pub stop_reason: Option<String>,
}

/// Token counts.
#[derive(Debug, Clone, Copy, PartialEq, Eq, Structural)]
pub struct StreamUsage {
    pub input_tokens: u32,
    pub output_tokens: u32,
    pub cache_read_input_tokens: u32,
    pub cache_creation_input_tokens: u32,
}

impl Default for StreamUsage {
    fn default() -> (r: Self)
        ensures
            r == (StreamUsage {
                input_tokens: 0,
                output_tokens: 0,
                cache_read_input_tokens: 0,
                cache_creation_input_tokens: 0,
            }),
    {
        StreamUsage {
            input_tokens: 0,
            output_tokens: 0,
            cache_read_input_tokens: 0,
            cache_creation_input_tokens: 0,
        }
    }
}

/// An error that the provider reports in the stream.
#[derive(Debug, PartialEq, Eq)]
pub struct StreamError {
    pub kind: String,
    pub message: String,
}

} // verus!
