//! Errors of the agent loop.

use crate::language_model::error::{ModelError, ModelErrorView};
use crate::language_model::error;
use crate::text;
use crate::text::{concat2, concat3, decimal};
use vstd::prelude::*;
use vstd::string::*;

verus! {

/// What a run may fail with. The variants are flat, so that each can be mapped to a code.
#[derive(Debug, PartialEq, Eq)]
pub enum AgentError {
    /// The model failed, when it was called or in its stream.
    Provider(ModelError),
    /// A tool failed.
    Tool {
        /// The tool's name.
        name: String,
        /// What went wrong.
        message: String,
    },
    /// The arguments that the model gave a tool are not JSON.
    InvalidToolArguments {
        /// The tool's name.
        name: String,
        /// The parser's message.
        message: String,
    },
    /// A hook stopped the loop.
    HookHalt(String),
    /// A permission policy denied a tool call.
    Permission {
        /// The tool's name.
        name: String,
        /// The policy's reason.
        message: String,
    },
    /// The tool server protocol failed.
    Mcp(String),
    /// The loop reached its limit of turns.
    MaxTurns(u32),
    /// The run was cancelled.
    Cancelled,
    /// The configuration is not usable.
    InvalidConfig(String),
    /// Anything else.
    Other(String),
}

/// Model of an agent error.
#[verifier::ext_equal]
pub enum AgentErrorView {
    Provider(ModelErrorView),
    Tool { name: Seq<char>, message: Seq<char> },
    InvalidToolArguments { name: Seq<char>, message: Seq<char> },
    HookHalt(Seq<char>),
    Permission { name: Seq<char>, message: Seq<char> },
    Mcp(Seq<char>),
    MaxTurns(u32),
    Cancelled,
    InvalidConfig(Seq<char>),
    Other(Seq<char>),
}

impl View for AgentError {
    type V = AgentErrorView;

    open spec fn view(&self) -> AgentErrorView {
        match *self {
            AgentError::Provider(e) => AgentErrorView::Provider(e@),
            AgentError::Tool { name, message } => AgentErrorView::Tool {
                name: name@,
                message: message@,
            },
            AgentError::InvalidToolArguments { name, message } => {
                AgentErrorView::InvalidToolArguments { name: name@, message: message@ }
            },
            AgentError::HookHalt(m) => AgentErrorView::HookHalt(m@),
            AgentError::Permission { name, message } => AgentErrorView::Permission {
                name: name@,
                message: message@,
            },
            AgentError::Mcp(m) => AgentErrorView::Mcp(m@),
            AgentError::MaxTurns(n) => AgentErrorView::MaxTurns(n),
            AgentError::Cancelled => AgentErrorView::Cancelled,
            AgentError::InvalidConfig(m) => AgentErrorView::InvalidConfig(m@),
            AgentError::Other(m) => AgentErrorView::Other(m@),
        }
    }
}

impl DeepView for AgentError {
    type V = AgentErrorView;

    open spec fn deep_view(&self) -> AgentErrorView {
        self@
    }
}

impl From<ModelError> for AgentError {
    fn from(e: ModelError) -> (r: Self) {
        AgentError::Provider(e)
    }
}

impl vstd::std_specs::convert::FromSpecImpl<ModelError> for AgentError {
    open spec fn obeys_from_spec() -> bool {
        true
    }

    open spec fn from_spec(e: ModelError) -> AgentError {
        AgentError::Provider(e)
    }
}

/// The text of an agent error.
pub open spec fn agent_error_text(e: AgentErrorView) -> Seq<char> {
    match e {
        AgentErrorView::Provider(e) => "provider error: "@ + error::model_error_text(e),
        AgentErrorView::Tool { name, message } => "tool '"@ + name + "' failed: "@ + message,
        AgentErrorView::InvalidToolArguments { name, message } => "tool '"@ + name
            + "' produced invalid argument JSON: "@ + message,
        AgentErrorView::HookHalt(m) => "hook halted the loop: "@ + m,
        AgentErrorView::Permission { name, message } => "permission denied for tool '"@ + name
            + "': "@ + message,
        AgentErrorView::Mcp(m) => "mcp error: "@ + m,
        AgentErrorView::MaxTurns(n) => "reached max_turns ("@ + text::decimal_text(n as nat) + ")"@,
        AgentErrorView::Cancelled => "agent run cancelled"@,
        AgentErrorView::InvalidConfig(m) => "invalid agent configuration: "@ + m,
        AgentErrorView::Other(m) => m,
    }
}

impl AgentError {
    /// The error as a text for people to read.
    pub fn to_text(&self) -> (r: String)
        ensures
            r@ == agent_error_text(self@),
    {
        match self {
            AgentError::Provider(e) => concat2("provider error: ", e.to_text().as_str()),
            AgentError::Tool { name, message } => text::concat4(
                "tool '",
                name.as_str(),
                "' failed: ",
                message.as_str(),
            ),
            AgentError::InvalidToolArguments { name, message } => text::concat4(
                "tool '",
                name.as_str(),
                "' produced invalid argument JSON: ",
                message.as_str(),
            ),
            AgentError::HookHalt(m) => concat2("hook halted the loop: ", m.as_str()),
            AgentError::Permission { name, message } => text::concat4(
                "permission denied for tool '",
                name.as_str(),
                "': ",
                message.as_str(),
            ),
            AgentError::Mcp(m) => concat2("mcp error: ", m.as_str()),
            AgentError::MaxTurns(n) => concat3(
                "reached max_turns (",
                decimal(*n as u128).as_str(),
                ")",
            ),
            AgentError::Cancelled => "agent run cancelled".to_owned(),
            AgentError::InvalidConfig(m) => concat2("invalid agent configuration: ", m.as_str()),
            AgentError::Other(m) => m.clone(),
        }
    }
}

/// What an error of a tool becomes: errors that already say what they are stay, any other is
/// wrapped with the tool's name.
pub open spec fn tool_error(name: Seq<char>, e: AgentErrorView) -> AgentErrorView {
    match e {
        AgentErrorView::Tool { .. } => e,
        AgentErrorView::Cancelled => e,
        AgentErrorView::Permission { .. } => e,
        AgentErrorView::HookHalt(_) => e,
        _ => AgentErrorView::Tool { name, message: agent_error_text(e) },
    }
}

/// Normalizes an error of a tool.
pub fn map_tool_err(name: String, err: AgentError) -> (r: AgentError)
    ensures
        r@ == tool_error(name@, err@),
{
    match err {
        AgentError::Tool { .. } => err,
        AgentError::Cancelled => err,
        AgentError::Permission { .. } => err,
        AgentError::HookHalt(_) => err,
        _ => AgentError::Tool { name, message: err.to_text() },
    }
}

} // verus!
