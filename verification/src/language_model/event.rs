//! Events that a model streams.

use crate::json::{Json, JsonView};
use vstd::prelude::*;
use vstd::string::*;

verus! {

/// Why a provider stopped.
#[derive(Debug, Clone, Copy, PartialEq, Eq, Structural)]
pub enum FinishReason {
    /// The model finished its reply.
    Stop,
    /// The token limit was reached.
    Length,
    /// The model wants tools to run.
    ToolUse,
    /// The provider filtered the output.
    ContentFilter,
    /// The run was cancelled.
    Cancelled,
    /// Anything else.
    Other,
}

/// Token counts.
#[derive(Debug, Clone, Copy, PartialEq, Eq, Structural)]
pub struct Usage {
    /// Tokens of input.
    pub input_tokens: u32,
    /// Tokens of output.
    pub output_tokens: u32,
    /// Tokens of input that came out of a cache.
    pub cached_input_tokens: u32,
}

/// No tokens at all.
pub open spec fn no_usage() -> Usage {
    Usage { input_tokens: 0, output_tokens: 0, cached_input_tokens: 0 }
}

impl Default for Usage {
    fn default() -> (r: Self)
        ensures
            r == no_usage(),
    {
        Usage { input_tokens: 0, output_tokens: 0, cached_input_tokens: 0 }
    }
}

/// An event of a model's stream.
#[derive(Debug, PartialEq, Eq)]
pub enum LanguageModelEvent {
    /// A fragment of assistant text.
    TextDelta {
        /// The text to append.
        delta: String,
    },
    /// A fragment of the reasoning trace.
    ReasoningDelta {
        /// The text to append.
        delta: String,
    },
    /// The provider's signature over the reasoning trace.
    ReasoningSignature {
        /// The signature.
        signature: String,
    },
    /// A tool call begins.
    ToolCallStart {
        /// The call's identifier.
        id: String,
        /// The tool's name.
        name: String,
    },
    /// A fragment of a tool call's arguments.
    ToolCallDelta {
        /// The call's identifier.
        id: String,
        /// The JSON text to append.
        arguments_delta: String,
    },
    /// A tool call is complete.
    ToolCallEnd {
        /// The call's identifier.
        id: String,
        /// The whole arguments, where the provider gives them.
        arguments: Option<Json>,
    },
    /// The stream's end.
    Finish {
        /// Why the provider stopped.
        reason: FinishReason,
        /// What the turn cost.
        usage: Usage,
    },
    /// The stream failed. No event follows.
    Error {
        /// What went wrong.
        message: String,
    },
}

/// Model of a model event.
#[verifier::ext_equal]
pub enum ModelEventView {
    TextDelta { delta: Seq<char> },
    ReasoningDelta { delta: Seq<char> },
    ReasoningSignature { signature: Seq<char> },
    ToolCallStart { id: Seq<char>, name: Seq<char> },
    ToolCallDelta { id: Seq<char>, arguments_delta: Seq<char> },
    ToolCallEnd { id: Seq<char>, arguments: Option<JsonView> },
    Finish { reason: FinishReason, usage: Usage },
    Error { message: Seq<char> },
}

impl View for LanguageModelEvent {
    type V = ModelEventView;

    open spec fn view(&self) -> ModelEventView {
        match *self {
            LanguageModelEvent::TextDelta { delta } => ModelEventView::TextDelta { delta: delta@ },
            LanguageModelEvent::ReasoningDelta { delta } => ModelEventView::ReasoningDelta {
                delta: delta@,
            },
            LanguageModelEvent::ReasoningSignature { signature } => {
                ModelEventView::ReasoningSignature { signature: signature@ }
            },
            LanguageModelEvent::ToolCallStart { id, name } => ModelEventView::ToolCallStart {
                id: id@,
                name: name@,
            },
            LanguageModelEvent::ToolCallDelta { id, arguments_delta } => {
                ModelEventView::ToolCallDelta { id: id@, arguments_delta: arguments_delta@ }
            },
            LanguageModelEvent::ToolCallEnd { id, arguments } => ModelEventView::ToolCallEnd {
                id: id@,
                arguments: arguments.deep_view(),
            },
            LanguageModelEvent::Finish { reason, usage } => ModelEventView::Finish { reason, usage },
            LanguageModelEvent::Error { message } => ModelEventView::Error { message: message@ },
        }
    }
}

impl DeepView for LanguageModelEvent {
    type V = ModelEventView;

    open spec fn deep_view(&self) -> ModelEventView {
        self@
    }
}

impl Clone for LanguageModelEvent {
    fn clone(&self) -> (r: Self)
        ensures
            r@ == self@,
    {
        match self {
            LanguageModelEvent::TextDelta { delta } => LanguageModelEvent::TextDelta {
                delta: delta.clone(),
            },
            LanguageModelEvent::ReasoningDelta { delta } => LanguageModelEvent::ReasoningDelta {
                delta: delta.clone(),
            },
            LanguageModelEvent::ReasoningSignature { signature } => {
                LanguageModelEvent::ReasoningSignature { signature: signature.clone() }
            },
            LanguageModelEvent::ToolCallStart { id, name } => LanguageModelEvent::ToolCallStart {
                id: id.clone(),
                name: name.clone(),
            },
            LanguageModelEvent::ToolCallDelta { id, arguments_delta } => {
                LanguageModelEvent::ToolCallDelta {
                    id: id.clone(),
                    arguments_delta: arguments_delta.clone(),
                }
            },
            LanguageModelEvent::ToolCallEnd { id, arguments } => LanguageModelEvent::ToolCallEnd {
                id: id.clone(),
                arguments: arguments.clone(),
            },
            LanguageModelEvent::Finish { reason, usage } => LanguageModelEvent::Finish {
                reason: *reason,
                usage: *usage,
            },
            LanguageModelEvent::Error { message } => LanguageModelEvent::Error {
                message: message.clone(),
            },
        }
    }
}

/// No events.
pub fn no_events() -> (r: Vec<LanguageModelEvent>)
    ensures
        r.deep_view() == Seq::<ModelEventView>::empty(),
{
    let r: Vec<LanguageModelEvent> = Vec::new();
    assert(r.deep_view() =~= Seq::<ModelEventView>::empty());
    r
}

/// One event.
pub fn one_event(event: LanguageModelEvent) -> (r: Vec<LanguageModelEvent>)
    ensures
        r.deep_view() == seq![event@],
{
    let ghost e = event@;
    let mut r: Vec<LanguageModelEvent> = Vec::new();
    r.push(event);
    assert(r.deep_view() =~= seq![e]);
    r
}

} // verus!
