//! Tools as they are advertised to a model.

use crate::json::{Json, JsonView};
use vstd::prelude::*;
use vstd::string::*;

verus! {

/// A tool that the model may call.
#[derive(Debug, PartialEq, Eq)]
pub struct ToolSpec {
    /// The tool's name, unique within a request.
    pub name: String,
    /// What the tool does, for the model to read.
    pub description: String,
    /// A JSON Schema of the tool's arguments.
    pub input_schema: Json,
}

/// Model of a tool specification.
#[verifier::ext_equal]
pub struct ToolSpecView {
    pub name: Seq<char>,
    pub description: Seq<char>,
    pub input_schema: JsonView,
}

impl View for ToolSpec {
    type V = ToolSpecView;

    open spec fn view(&self) -> ToolSpecView {
        ToolSpecView {
            name: self.name@,
            description: self.description@,
            input_schema: self.input_schema@,
        }
    }
}

impl DeepView for ToolSpec {
    type V = ToolSpecView;

    open spec fn deep_view(&self) -> ToolSpecView {
        self@
    }
}

impl Clone for ToolSpec {
    fn clone(&self) -> (r: Self)
        ensures
            r@ == self@,
    {
        ToolSpec {
            name: self.name.clone(),
            description: self.description.clone(),
            input_schema: self.input_schema.clone(),
        }
    }
}

impl ToolSpec {
    /// A tool specification from its parts.
    pub fn new(name: String, description: String, input_schema: Json) -> (r: Self)
        ensures
            r@ == (ToolSpecView {
                name: name@,
                description: description@,
                input_schema: input_schema@,
            }),
    {
        ToolSpec { name, description, input_schema }
    }
}

/// How the model is to pick tools.
#[derive(Debug, PartialEq, Eq)]
pub enum ToolChoice {
    /// The model decides whether to call a tool.
    Auto,
    /// The model must call at least one tool.
    Required,
    /// The model must call the named tool.
    Tool {
        /// The name of that tool.
        name: String,
    },
    /// The model must not call any tool this turn.
    NoTool,
}

/// Model of a tool choice.
#[verifier::ext_equal]
pub enum ToolChoiceView {
    Auto,
    Required,
    Tool { name: Seq<char> },
    NoTool,
}

impl View for ToolChoice {
    type V = ToolChoiceView;

    open spec fn view(&self) -> ToolChoiceView {
        match *self {
            ToolChoice::Auto => ToolChoiceView::Auto,
            ToolChoice::Required => ToolChoiceView::Required,
            ToolChoice::Tool { name } => ToolChoiceView::Tool { name: name@ },
            ToolChoice::NoTool => ToolChoiceView::NoTool,
        }
    }
}

impl DeepView for ToolChoice {
    type V = ToolChoiceView;

    open spec fn deep_view(&self) -> ToolChoiceView {
        self@
    }
}

impl Clone for ToolChoice {
    fn clone(&self) -> (r: Self)
        ensures
            r@ == self@,
    {
        match self {
            ToolChoice::Auto => ToolChoice::Auto,
            ToolChoice::Required => ToolChoice::Required,
            ToolChoice::Tool { name } => ToolChoice::Tool { name: name.clone() },
            ToolChoice::NoTool => ToolChoice::NoTool,
        }
    }
}

impl Default for ToolChoice {
    fn default() -> (r: Self)
        ensures
            r@ == ToolChoiceView::Auto,
    {
        ToolChoice::Auto
    }
}

} // verus!
