//! The request that a model invocation takes.

use crate::json::{Json, JsonView};
use crate::key_map::KeyMap;
use crate::language_model::message::{Message, MessageView};
use crate::language_model::tool::{ToolChoice, ToolChoiceView, ToolSpec, ToolSpecView};
use vstd::prelude::*;
use vstd::string::*;

verus! {

/// A sampling temperature: a single-precision number, held by its bits.
#[derive(Debug, Clone, Copy, PartialEq, Eq, Structural)]
pub struct Temperature {
    /// The bits of the number, as in IEEE 754.
    pub bits: u32,
}

/// Input to a model invocation.
#[derive(Debug, PartialEq, Eq)]
pub struct LanguageModelRequest {
    /// The conversation, oldest message first.
    pub messages: Vec<Message>,
    /// The system prompt.
    pub system: Option<String>,
    /// The tools that the model may call this turn.
    pub tools: Vec<ToolSpec>,
    /// How the model is to pick tools.
    pub tool_choice: ToolChoice,
    /// The sampling temperature.
    pub temperature: Option<Temperature>,
    /// The upper bound on output tokens for this turn.
    pub max_tokens: Option<u32>,
    /// Texts at which the provider stops generating.
    pub stop: Vec<String>,
    /// What only one provider understands, under keys such as `"anthropic.cache_control"`.
    pub provider_metadata: KeyMap<String, Json>,
}

/// Model of a request.
#[verifier::ext_equal]
pub struct RequestView {
    pub messages: Seq<MessageView>,
    pub system: Option<Seq<char>>,
    pub tools: Seq<ToolSpecView>,
    pub tool_choice: ToolChoiceView,
    pub temperature: Option<Temperature>,
    pub max_tokens: Option<u32>,
    pub stop: Seq<Seq<char>>,
    pub provider_metadata: Seq<(Seq<char>, JsonView)>,
}

impl View for LanguageModelRequest {
    type V = RequestView;

    open spec fn view(&self) -> RequestView {
        RequestView {
            messages: self.messages.deep_view(),
            system: self.system.deep_view(),
            tools: self.tools.deep_view(),
            tool_choice: self.tool_choice@,
            temperature: self.temperature,
            max_tokens: self.max_tokens,
            stop: self.stop.deep_view(),
            provider_metadata: self.provider_metadata@,
        }
    }
}

impl DeepView for LanguageModelRequest {
    type V = RequestView;

    open spec fn deep_view(&self) -> RequestView {
        self@
    }
}

impl Clone for LanguageModelRequest {
    fn clone(&self) -> (r: Self)
        ensures
            r@ == self@,
    {
        let messages = self.messages.clone();
        let tools = self.tools.clone();
        let stop = self.stop.clone();
        assert(messages.deep_view() =~= self.messages.deep_view());
        assert(tools.deep_view() =~= self.tools.deep_view());
        assert(stop.deep_view() =~= self.stop.deep_view());
        LanguageModelRequest {
            messages,
            system: self.system.clone(),
            tools,
            tool_choice: self.tool_choice.clone(),
            temperature: self.temperature,
            max_tokens: self.max_tokens,
            stop,
            provider_metadata: self.provider_metadata.clone(),
        }
    }
}

/// The request that asks for nothing.
pub open spec fn empty_request() -> RequestView {
    RequestView {
        messages: Seq::empty(),
        system: None,
        tools: Seq::empty(),
        tool_choice: ToolChoiceView::Auto,
        temperature: None,
        max_tokens: None,
        stop: Seq::empty(),
        provider_metadata: Seq::empty(),
    }
}

impl Default for LanguageModelRequest {
    fn default() -> (r: Self)
        ensures
            r@ == empty_request(),
    {
        LanguageModelRequest {
            messages: Vec::new(),
            system: None,
            tools: Vec::new(),
            tool_choice: ToolChoice::Auto,
            temperature: None,
            max_tokens: None,
            stop: Vec::new(),
            provider_metadata: KeyMap::new(),
        }
    }
}

} // verus!
