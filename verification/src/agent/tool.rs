//! What a tool hands back.

use crate::json::{Json, JsonView};
use vstd::prelude::*;

verus! {

/// Output of a tool.
#[derive(Debug, PartialEq, Eq)]
pub struct ToolResult {
    /// The output, most often a string or an object.
    pub content: Json,
    /// Whether the model is to see this as a failure.
    pub is_error: bool,
}

/// Model of a tool result.
#[verifier::ext_equal]
pub struct ToolResultView {
    pub content: JsonView,
    pub is_error: bool,
}

impl View for ToolResult {
    type V = ToolResultView;

    open spec fn view(&self) -> ToolResultView {
        ToolResultView { content: self.content@, is_error: self.is_error }
    }
}

impl DeepView for ToolResult {
    type V = ToolResultView;

    open spec fn deep_view(&self) -> ToolResultView {
        self@
    }
}

impl Clone for ToolResult {
    fn clone(&self) -> (r: Self)
        ensures
            r@ == self@,
    {
        ToolResult { content: self.content.clone(), is_error: self.is_error }
    }
}

/// A failure that carries a text.
pub open spec fn error_result(text: Seq<char>) -> ToolResultView {
    ToolResultView { content: JsonView::Text(text), is_error: true }
}

impl ToolResult {
    /// A success with a plain text.
    pub fn text(text: String) -> (r: Self)
        ensures
            r@ == (ToolResultView { content: JsonView::Text(text@), is_error: false }),
    {
        ToolResult { content: Json::Text(text), is_error: false }
    }

    /// A success with a JSON value.
    pub fn json(value: Json) -> (r: Self)
        ensures
            r@ == (ToolResultView { content: value@, is_error: false }),
    {
        ToolResult { content: value, is_error: false }
    }

    /// A failure with a text.
    pub fn error(text: String) -> (r: Self)
        ensures
            r@ == error_result(text@),
    {
        ToolResult { content: Json::Text(text), is_error: true }
    }
}

} // verus!
