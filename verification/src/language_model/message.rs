//! Chat messages and content blocks.
//!
//! These types know nothing of any provider: what only one provider understands belongs in the
//! metadata of a request.

use crate::json::{Json, JsonView};
use vstd::prelude::*;
use vstd::string::*;

verus! {

/// Who wrote a message.
#[derive(Debug, Clone, Copy, PartialEq, Eq, Structural)]
pub enum Role {
    /// System-level instructions.
    System,
    /// Input of the end user.
    User,
    /// Output of the model.
    Assistant,
    /// The result of a tool execution, sent back to the model.
    Tool,
}

/// A piece of content within a message.
#[derive(Debug, PartialEq, Eq)]
pub enum ContentBlock {
    /// Plain text.
    Text {
        /// The text.
        text: String,
    },
    /// A tool that the assistant has decided to invoke.
    ToolUse {
        /// The identifier by which the matching result is found.
        id: String,
        /// The tool's name.
        name: String,
        /// The tool's arguments.
        input: Json,
    },
    /// The output of a tool call that was asked for before.
    ToolResult {
        /// The `id` of the tool use that this answers.
        tool_use_id: String,
        /// The tool's output.
        content: Json,
        /// `Some(true)` if the tool failed; `None` means success.
        is_error: Option<bool>,
    },
    /// A reasoning trace.
    Reasoning {
        /// The reasoning text.
        text: String,
        /// The provider's signature over the trace, where it gave one.
        signature: Option<String>,
    },
}

/// Model of a content block.
#[verifier::ext_equal]
pub enum ContentBlockView {
    Text { text: Seq<char> },
    ToolUse { id: Seq<char>, name: Seq<char>, input: JsonView },
    ToolResult { tool_use_id: Seq<char>, content: JsonView, is_error: Option<bool> },
    Reasoning { text: Seq<char>, signature: Option<Seq<char>> },
}

impl View for ContentBlock {
    type V = ContentBlockView;

    open spec fn view(&self) -> ContentBlockView {
        match *self {
            ContentBlock::Text { text } => ContentBlockView::Text { text: text@ },
            ContentBlock::ToolUse { id, name, input } => ContentBlockView::ToolUse {
                id: id@,
                name: name@,
                input: input@,
            },
            ContentBlock::ToolResult { tool_use_id, content, is_error } => {
                ContentBlockView::ToolResult { tool_use_id: tool_use_id@, content: content@, is_error }
            },
            ContentBlock::Reasoning { text, signature } => ContentBlockView::Reasoning {
                text: text@,
                signature: signature.deep_view(),
            },
        }
    }
}

impl DeepView for ContentBlock {
    type V = ContentBlockView;

    open spec fn deep_view(&self) -> ContentBlockView {
        self@
    }
}

impl Clone for ContentBlock {
    fn clone(&self) -> (r: Self)
        ensures
            r@ == self@,
    {
        match self {
            ContentBlock::Text { text } => ContentBlock::Text { text: text.clone() },
            ContentBlock::ToolUse { id, name, input } => ContentBlock::ToolUse {
                id: id.clone(),
                name: name.clone(),
                input: input.clone(),
            },
            ContentBlock::ToolResult { tool_use_id, content, is_error } => {
                ContentBlock::ToolResult {
                    tool_use_id: tool_use_id.clone(),
                    content: content.clone(),
                    is_error: *is_error,
                }
            },
            ContentBlock::Reasoning { text, signature } => ContentBlock::Reasoning {
                text: text.clone(),
                signature: signature.clone(),
            },
        }
    }
}

impl ContentBlock {
    /// A text block.
    pub fn text(text: String) -> (r: Self)
        ensures
            r@ == (ContentBlockView::Text { text: text@ }),
    {
        ContentBlock::Text { text }
    }
}

/// A message of a conversation: one or more content blocks by one author.
#[derive(Debug, PartialEq, Eq)]
pub struct Message {
    /// Who wrote the message.
    pub role: Role,
    /// The content blocks, in order.
    pub content: Vec<ContentBlock>,
}

/// Model of a message.
#[verifier::ext_equal]
pub struct MessageView {
    pub role: Role,
    pub content: Seq<ContentBlockView>,
}

impl View for Message {
    type V = MessageView;

    open spec fn view(&self) -> MessageView {
        MessageView { role: self.role, content: self.content.deep_view() }
    }
}

impl DeepView for Message {
    type V = MessageView;

    open spec fn deep_view(&self) -> MessageView {
        self@
    }
}

impl Clone for Message {
    fn clone(&self) -> (r: Self)
        ensures
            r@ == self@,
    {
        let content = self.content.clone();
        assert(content.deep_view() =~= self.content.deep_view());
        Message { role: self.role, content }
    }
}

/// A message with one text block.
pub open spec fn text_message(role: Role, text: Seq<char>) -> MessageView {
    MessageView { role, content: seq![ContentBlockView::Text { text }] }
}

impl Message {
    /// A message from its author and its blocks.
    pub fn new(role: Role, content: Vec<ContentBlock>) -> (r: Self)
        ensures
            r@ == (MessageView { role, content: content.deep_view() }),
    {
        Message { role, content }
    }

    fn of_text(role: Role, text: String) -> (r: Self)
        ensures
            r@ == text_message(role, text@),
    {
        let mut content: Vec<ContentBlock> = Vec::new();
        let ghost t = text@;
        content.push(ContentBlock::text(text));
        assert(content.deep_view() =~= seq![ContentBlockView::Text { text: t }]);
        Message { role, content }
    }

    /// A plain-text message of the user.
    pub fn user(text: String) -> (r: Self)
        ensures
            r@ == text_message(Role::User, text@),
    {
        Message::of_text(Role::User, text)
    }

    /// A plain-text system message.
    pub fn system(text: String) -> (r: Self)
        ensures
            r@ == text_message(Role::System, text@),
    {
        Message::of_text(Role::System, text)
    }

    /// A plain-text message of the assistant.
    pub fn assistant(text: String) -> (r: Self)
        ensures
            r@ == text_message(Role::Assistant, text@),
    {
        Message::of_text(Role::Assistant, text)
    }
}

} // verus!
