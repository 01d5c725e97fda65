//! What a request says to either API.

use crate::flat;
use crate::json;
use crate::json::JsonView;
use crate::key_map;
use crate::language_model::error::ModelErrorView;
use crate::language_model::message::{ContentBlockView, MessageView, Role};
use crate::language_model::request::RequestView;
use crate::language_model::tool::ToolChoiceView;
use crate::openai::chat;
use crate::openai::chat::{ChatMessageView, ChatToolCallView};
use crate::openai::responses;
use crate::openai::responses::{AssistantItems, ContentPartView, InputItemView};
use vstd::prelude::*;

verus! {

/// The body keeps the settings of the request: the model, the temperature, the cap on output tokens,
/// the stop texts, and the tools, each with its name, its description and its schema. The answer is
/// to be streamed, with its token counts.
pub proof fn law_chat_settings_are_kept(model_id: Seq<char>, req: RequestView)
    ensures
        chat::chat_request(model_id, req) matches Ok(body) ==> {
            &&& body.model == model_id
            &&& body.temperature == req.temperature
            &&& body.max_tokens == req.max_tokens
            &&& body.stop == req.stop
            &&& body.stream
            &&& body.stream_options.include_usage
            &&& body.tools.len() == req.tools.len()
            &&& forall|i: int|
                0 <= i < req.tools.len() ==> {
                    &&& (#[trigger] body.tools[i]).kind == "function"@
                    &&& body.tools[i].name == req.tools[i].name
                    &&& body.tools[i].description == req.tools[i].description
                    &&& body.tools[i].parameters == req.tools[i].input_schema
                }
        },
{
}

/// The body says how tools are to be picked, nothing where that is left to the model; and whether
/// several may be called at once, where the request says so with a boolean.
pub proof fn law_chat_tool_choice_is_kept(model_id: Seq<char>, req: RequestView)
    ensures
        chat::chat_request(model_id, req) matches Ok(body) ==> {
            &&& match req.tool_choice {
                ToolChoiceView::Auto => body.tool_choice is None,
                ToolChoiceView::Required => body.tool_choice == Some(JsonView::Text("required"@)),
                ToolChoiceView::NoTool => body.tool_choice == Some(JsonView::Text("none"@)),
                ToolChoiceView::Tool { name } => body.tool_choice == Some(
                    JsonView::Raw(
                        "{\"function\":{\"name\":"@ + json::quoted(name)
                            + "},\"type\":\"function\"}"@,
                    ),
                ),
            }
            &&& match key_map::get(req.provider_metadata, "openai.parallel_tool_calls"@) {
                Some(JsonView::Bool(b)) => body.parallel_tool_calls == Some(b),
                _ => body.parallel_tool_calls is None,
            }
        },
{
}

/// The text of a block, where it is a text block.
pub open spec fn chars_in(block: ContentBlockView) -> Seq<char> {
    match block {
        ContentBlockView::Text { text } => text,
        _ => Seq::empty(),
    }
}

/// The text of a message: that of its text blocks, one after the other.
pub open spec fn text_said(content: Seq<ContentBlockView>) -> Seq<char> {
    content.flat_map(|b: ContentBlockView| chars_in(b))
}

/// The tool call that a block is.
pub open spec fn chat_call_in(block: ContentBlockView) -> Seq<ChatToolCallView> {
    match block {
        ContentBlockView::ToolUse { id, name, input } => seq![
            ChatToolCallView {
                id,
                kind: "function"@,
                name,
                arguments: json::json_text(input),
            },
        ],
        _ => Seq::empty(),
    }
}

/// The message that tells of the tool result that a block is.
pub open spec fn chat_result_in(block: ContentBlockView) -> Seq<ChatMessageView> {
    match block {
        ContentBlockView::ToolResult { tool_use_id, content, .. } => seq![
            ChatMessageView {
                role: "tool"@,
                content: JsonView::Text(
                    match content {
                        JsonView::Text(s) => s,
                        other => json::json_text(other),
                    },
                ),
                tool_calls: Seq::empty(),
                tool_call_id: Some(tool_use_id),
            },
        ],
        _ => Seq::empty(),
    }
}

/// A message with nothing but text.
pub open spec fn chat_text(role: Seq<char>, text: Seq<char>) -> ChatMessageView {
    ChatMessageView {
        role,
        content: JsonView::Text(text),
        tool_calls: Seq::empty(),
        tool_call_id: None,
    }
}

/// What a message of the conversation is on the wire of Chat Completions: the system and the user
/// speak in text, the assistant in text and tool calls, and each tool result is a message of its
/// own.
pub open spec fn chat_said(msg: MessageView) -> Seq<ChatMessageView> {
    match msg.role {
        Role::System => seq![chat_text("system"@, text_said(msg.content))],
        Role::User => seq![chat_text("user"@, text_said(msg.content))],
        Role::Assistant => seq![
            ChatMessageView {
                role: "assistant"@,
                content: if text_said(msg.content).len() == 0 {
                    JsonView::Null
                } else {
                    JsonView::Text(text_said(msg.content))
                },
                tool_calls: msg.content.flat_map(|b: ContentBlockView| chat_call_in(b)),
                tool_call_id: None,
            },
        ],
        Role::Tool => msg.content.flat_map(|b: ContentBlockView| chat_result_in(b)),
    }
}

/// Whether a message can be sent: the assistant does not speak in tool results.
pub open spec fn sendable(msg: MessageView) -> bool {
    msg.role == Role::Assistant ==> forall|i: int|
        0 <= i < msg.content.len() ==> !((#[trigger] msg.content[i]) is ToolResult)
}

proof fn lemma_text_said(content: Seq<ContentBlockView>)
    ensures
        chat::text_of_blocks(content) == text_said(content),
    decreases content.len(),
{
    let f = |b: ContentBlockView| chars_in(b);
    if content.len() == 0 {
        flat::lemma_flat_empty(content, f);
    } else {
        lemma_text_said(content.drop_last());
        flat::lemma_flat_last(content, f);
        assert(chat::text_of_blocks(content) =~= text_said(content));
    }
}

proof fn lemma_chat_calls(content: Seq<ContentBlockView>)
    ensures
        chat::calls_of_blocks(content) == content.flat_map(|b: ContentBlockView| chat_call_in(b)),
    decreases content.len(),
{
    let f = |b: ContentBlockView| chat_call_in(b);
    if content.len() == 0 {
        flat::lemma_flat_empty(content, f);
    } else {
        lemma_chat_calls(content.drop_last());
        flat::lemma_flat_last(content, f);
        assert(chat::calls_of_blocks(content) =~= content.flat_map(f));
    }
}

proof fn lemma_chat_results(content: Seq<ContentBlockView>)
    ensures
        chat::results_of_blocks(content) == content.flat_map(
            |b: ContentBlockView| chat_result_in(b),
        ),
    decreases content.len(),
{
    let f = |b: ContentBlockView| chat_result_in(b);
    if content.len() == 0 {
        flat::lemma_flat_empty(content, f);
    } else {
        lemma_chat_results(content.drop_last());
        flat::lemma_flat_last(content, f);
        assert(chat::results_of_blocks(content) =~= content.flat_map(f));
    }
}

/// A message says on the wire of Chat Completions what it says: all its text, all its tool calls and
/// all its tool results, in order, each call with its identifier, its name and its arguments, and
/// each result under the identifier of its call.
pub proof fn law_chat_message_is_sent(msg: MessageView)
    ensures
        sendable(msg) ==> chat::chat_message(msg) == Ok::<_, ModelErrorView>(chat_said(msg)),
        !sendable(msg) ==> chat::chat_message(msg) matches Err(ModelErrorView::InvalidRequest(_)),
{
    lemma_text_said(msg.content);
    lemma_chat_calls(msg.content);
    lemma_chat_results(msg.content);
}

/// The tool calls of an assistant message are its tool uses, one for each, in order, each with the
/// identifier, the name and the arguments of its block.
pub proof fn law_chat_calls_are_the_tool_uses(content: Seq<ContentBlockView>)
    requires
        sendable(MessageView { role: Role::Assistant, content }),
    ensures
        ({
            let uses = content.filter(|b: ContentBlockView| b is ToolUse);
            let sent = chat::chat_message(MessageView { role: Role::Assistant, content });
            &&& sent matches Ok(messages)
            &&& messages.len() == 1
            &&& messages[0].tool_calls.len() == uses.len()
            &&& forall|k: int|
                0 <= k < uses.len() ==> {
                    &&& (#[trigger] messages[0].tool_calls[k]).id == uses[k]->ToolUse_id
                    &&& messages[0].tool_calls[k].name == uses[k]->ToolUse_name
                    &&& messages[0].tool_calls[k].arguments == json::json_text(uses[k]->input)
                    &&& messages[0].tool_calls[k].kind == "function"@
                }
        }),
{
    law_chat_message_is_sent(MessageView { role: Role::Assistant, content });
    lemma_calls_by_kind(content);
}

proof fn lemma_calls_by_kind(content: Seq<ContentBlockView>)
    ensures
        ({
            let uses = content.filter(|b: ContentBlockView| b is ToolUse);
            let calls = content.flat_map(|b: ContentBlockView| chat_call_in(b));
            &&& calls.len() == uses.len()
            &&& forall|k: int|
                0 <= k < uses.len() ==> {
                    &&& (#[trigger] calls[k]).id == uses[k]->ToolUse_id
                    &&& calls[k].name == uses[k]->ToolUse_name
                    &&& calls[k].arguments == json::json_text(uses[k]->input)
                    &&& calls[k].kind == "function"@
                }
        }),
    decreases content.len(),
{
    reveal(Seq::filter);
    let f = |b: ContentBlockView| chat_call_in(b);
    if content.len() == 0 {
        flat::lemma_flat_empty(content, f);
    } else {
        lemma_calls_by_kind(content.drop_last());
        flat::lemma_flat_last(content, f);
    }
}

proof fn lemma_chat_messages(messages: Seq<MessageView>)
    ensures
        (forall|i: int| 0 <= i < messages.len() ==> sendable(#[trigger] messages[i]))
            ==> chat::chat_messages(messages) == Ok::<_, ModelErrorView>(
            messages.flat_map(|m: MessageView| chat_said(m)),
        ),
        (exists|i: int| 0 <= i < messages.len() && !sendable(#[trigger] messages[i]))
            ==> chat::chat_messages(messages) matches Err(ModelErrorView::InvalidRequest(_)),
    decreases messages.len(),
{
    let f = |m: MessageView| chat_said(m);
    if messages.len() == 0 {
        flat::lemma_flat_empty(messages, f);
    } else {
        let front = messages.drop_last();
        lemma_chat_messages(front);
        law_chat_message_is_sent(messages.last());
        flat::lemma_flat_last(messages, f);
        assert(forall|i: int| 0 <= i < front.len() ==> front[i] == messages[i]);
        if exists|i: int| 0 <= i < messages.len() && !sendable(#[trigger] messages[i]) {
            let i = choose|i: int| 0 <= i < messages.len() && !sendable(#[trigger] messages[i]);
            if i < front.len() {
                assert(!sendable(front[i]));
            } else {
                assert(i == messages.len() - 1);
                if forall|j: int| 0 <= j < front.len() ==> sendable(#[trigger] front[j]) {
                } else {
                    let j = choose|j: int| 0 <= j < front.len() && !sendable(#[trigger] front[j]);
                    assert(!sendable(front[j]));
                }
            }
        }
    }
}

/// The whole conversation is sent to Chat Completions: the system prompt first, where there is one,
/// and then all that the messages say, in order. Only a message that cannot be sent stops that.
pub proof fn law_chat_conversation_is_sent(model_id: Seq<char>, req: RequestView)
    ensures
        ({
            let lead = match req.system {
                Some(s) => seq![chat_text("system"@, s)],
                None => Seq::empty(),
            };
            let all = forall|i: int|
                0 <= i < req.messages.len() ==> sendable(#[trigger] req.messages[i]);
            match chat::chat_request(model_id, req) {
                Ok(body) => all && body.messages == lead + req.messages.flat_map(
                    |m: MessageView| chat_said(m),
                ),
                Err(e) => !all && e is InvalidRequest,
            }
        }),
{
    lemma_chat_messages(req.messages);
}

/// The body keeps the settings of the request: the model, the system prompt, the temperature, the
/// cap on output tokens, and the tools, each with its name, its description and its schema. The
/// answer is to be streamed, and not to be kept.
pub proof fn law_responses_settings_are_kept(model_id: Seq<char>, req: RequestView)
    ensures
        responses::responses_request(model_id, req) matches Ok(body) ==> {
            &&& body.model == model_id
            &&& body.instructions == req.system
            &&& body.temperature == req.temperature
            &&& body.max_output_tokens == req.max_tokens
            &&& body.stream
            &&& !body.store
            &&& body.tools.len() == req.tools.len()
            &&& forall|i: int|
                0 <= i < req.tools.len() ==> {
                    &&& (#[trigger] body.tools[i]).kind == "function"@
                    &&& body.tools[i].name == req.tools[i].name
                    &&& body.tools[i].description == req.tools[i].description
                    &&& body.tools[i].parameters == req.tools[i].input_schema
                }
            &&& match req.tool_choice {
                ToolChoiceView::Auto => body.tool_choice is None,
                ToolChoiceView::Required => body.tool_choice == Some(JsonView::Text("required"@)),
                ToolChoiceView::NoTool => body.tool_choice == Some(JsonView::Text("none"@)),
                ToolChoiceView::Tool { name } => body.tool_choice == Some(
                    JsonView::Raw("{\"name\":"@ + json::quoted(name) + ",\"type\":\"function\"}"@),
                ),
            }
        },
{
}

/// What the assistant does in a piece of a message: it says a text, or calls a tool.
#[verifier::ext_equal]
pub enum Deed {
    Say(Seq<char>),
    Call { id: Seq<char>, name: Seq<char>, arguments: Seq<char> },
}

/// What the assistant does in a block.
pub open spec fn deed_in_block(block: ContentBlockView) -> Seq<Deed> {
    match block {
        ContentBlockView::Text { text } => seq![Deed::Say(text)],
        ContentBlockView::ToolUse { id, name, input } => seq![
            Deed::Call { id, name, arguments: json::json_text(input) },
        ],
        _ => Seq::empty(),
    }
}

/// What the assistant does in a part of a message on the wire.
pub open spec fn deed_in_part(part: ContentPartView) -> Seq<Deed> {
    match part {
        ContentPartView::OutputText { text } => seq![Deed::Say(text)],
        _ => Seq::empty(),
    }
}

/// What the assistant does in an item on the wire.
pub open spec fn deeds_in_item(item: InputItemView) -> Seq<Deed> {
    match item {
        InputItemView::Message { role, content } => if role == "assistant"@ {
            content.flat_map(|p: ContentPartView| deed_in_part(p))
        } else {
            Seq::empty()
        },
        InputItemView::FunctionCall { call_id, name, arguments } => seq![
            Deed::Call { id: call_id, name, arguments },
        ],
        _ => Seq::empty(),
    }
}

/// Whether an item is one of the assistant's: a message of its own with some text in it and nothing
/// else, or a tool call.
pub open spec fn assistants_own(item: InputItemView) -> bool {
    match item {
        InputItemView::Message { role, content } => role == "assistant"@ && content.len() > 0
            && forall|i: int| 0 <= i < content.len() ==> (#[trigger] content[i]) is OutputText,
        InputItemView::FunctionCall { .. } => true,
        _ => false,
    }
}

/// The item that tells of the tool result that a block is.
pub open spec fn output_in(block: ContentBlockView) -> Seq<InputItemView> {
    match block {
        ContentBlockView::ToolResult { tool_use_id, content, .. } => seq![
            InputItemView::FunctionCallOutput {
                call_id: tool_use_id,
                output: match content {
                    JsonView::Text(s) => s,
                    other => json::json_text(other),
                },
            },
        ],
        _ => Seq::empty(),
    }
}

/// Whether some items on the wire of Responses say what a message says: the system and the user
/// speak in text, each tool result is an item of its own, and the items of the assistant are its
/// own, do what the message does, in order, and hold together the texts between two tool calls.
pub open spec fn items_say(msg: MessageView, items: Seq<InputItemView>) -> bool {
    match msg.role {
        Role::System => items == seq![
            InputItemView::Message {
                role: "system"@,
                content: seq![ContentPartView::InputText { text: text_said(msg.content) }],
            },
        ],
        Role::User => items == seq![
            InputItemView::Message {
                role: "user"@,
                content: seq![ContentPartView::InputText { text: text_said(msg.content) }],
            },
        ],
        Role::Tool => items == msg.content.flat_map(|b: ContentBlockView| output_in(b)),
        Role::Assistant => {
            &&& items.flat_map(|i: InputItemView| deeds_in_item(i)) == msg.content.flat_map(
                |b: ContentBlockView| deed_in_block(b),
            )
            &&& forall|i: int| 0 <= i < items.len() ==> assistants_own(#[trigger] items[i])
            &&& forall|i: int, j: int|
                0 <= i < items.len() && j == i + 1 && j < items.len() && (#[trigger] items[i])
                    is Message ==> !((#[trigger] items[j]) is Message)
        },
    }
}

spec fn well_gathered(a: AssistantItems) -> bool {
    &&& forall|i: int| 0 <= i < a.out.len() ==> assistants_own(#[trigger] a.out[i])
    &&& forall|i: int, j: int|
        0 <= i < a.out.len() && j == i + 1 && j < a.out.len() && (#[trigger] a.out[i]) is Message
            ==> !((#[trigger] a.out[j]) is Message)
    &&& a.out.len() > 0 ==> a.out.last() is FunctionCall
    &&& forall|i: int| 0 <= i < a.parts.len() ==> (#[trigger] a.parts[i]) is OutputText
}

proof fn lemma_closed(a: AssistantItems)
    requires
        well_gathered(a),
    ensures
        ({
            let items = responses::with_parts_closed(a);
            &&& items.flat_map(|i: InputItemView| deeds_in_item(i)) == a.out.flat_map(
                |i: InputItemView| deeds_in_item(i),
            ) + a.parts.flat_map(|p: ContentPartView| deed_in_part(p))
            &&& forall|i: int| 0 <= i < items.len() ==> assistants_own(#[trigger] items[i])
            &&& forall|i: int, j: int|
                0 <= i < items.len() && j == i + 1 && j < items.len() && (#[trigger] items[i])
                    is Message ==> !((#[trigger] items[j]) is Message)
        }),
{
    let f = |i: InputItemView| deeds_in_item(i);
    let g = |p: ContentPartView| deed_in_part(p);
    if a.parts.len() == 0 {
        flat::lemma_flat_empty(a.parts, g);
        assert(a.out.flat_map(f) + Seq::<Deed>::empty() =~= a.out.flat_map(f));
    } else {
        flat::lemma_flat_push(
            a.out,
            InputItemView::Message { role: "assistant"@, content: a.parts },
            f,
        );
    }
}

proof fn lemma_assistant(content: Seq<ContentBlockView>)
    ensures
        ({
            let a = responses::assistant_items(content);
            &&& well_gathered(a)
            &&& a.out.flat_map(|i: InputItemView| deeds_in_item(i)) + a.parts.flat_map(
                |p: ContentPartView| deed_in_part(p),
            ) == content.flat_map(|b: ContentBlockView| deed_in_block(b))
        }),
    decreases content.len(),
{
    let f = |i: InputItemView| deeds_in_item(i);
    let g = |p: ContentPartView| deed_in_part(p);
    let h = |b: ContentBlockView| deed_in_block(b);
    let a = responses::assistant_items(content);
    if content.len() == 0 {
        flat::lemma_flat_empty(content, h);
        flat::lemma_flat_empty(a.out, f);
        flat::lemma_flat_empty(a.parts, g);
        assert(Seq::<Deed>::empty() + Seq::<Deed>::empty() =~= Seq::<Deed>::empty());
    } else {
        let before = responses::assistant_items(content.drop_last());
        lemma_assistant(content.drop_last());
        flat::lemma_flat_last(content, h);
        match content.last() {
            ContentBlockView::Text { text } => {
                flat::lemma_flat_push(before.parts, ContentPartView::OutputText { text }, g);
                assert(a.out.flat_map(f) + a.parts.flat_map(g) =~= content.flat_map(h));
            },
            ContentBlockView::ToolUse { id, name, input } => {
                lemma_closed(before);
                let call = InputItemView::FunctionCall {
                    call_id: id,
                    name,
                    arguments: json::json_text(input),
                };
                flat::lemma_flat_push(responses::with_parts_closed(before), call, f);
                flat::lemma_flat_empty(a.parts, g);
                assert(a.out.flat_map(f) + a.parts.flat_map(g) =~= content.flat_map(h));
            },
            _ => {
                assert(content.flat_map(h) =~= content.drop_last().flat_map(h));
            },
        }
    }
}

proof fn lemma_outputs(content: Seq<ContentBlockView>)
    ensures
        responses::result_items(content) == content.flat_map(|b: ContentBlockView| output_in(b)),
    decreases content.len(),
{
    let f = |b: ContentBlockView| output_in(b);
    if content.len() == 0 {
        flat::lemma_flat_empty(content, f);
    } else {
        lemma_outputs(content.drop_last());
        flat::lemma_flat_last(content, f);
        assert(responses::result_items(content) =~= content.flat_map(f));
    }
}

/// A message says on the wire of Responses what it says: all its text, all its tool calls and all
/// its tool results, in order.
pub proof fn law_responses_message_is_sent(msg: MessageView)
    ensures
        match responses::input_items(msg) {
            Ok(items) => sendable(msg) && items_say(msg, items),
            Err(e) => !sendable(msg) && e is InvalidRequest,
        },
{
    lemma_text_said(msg.content);
    lemma_outputs(msg.content);
    lemma_assistant(msg.content);
    lemma_closed(responses::assistant_items(msg.content));
}

/// The items of a message.
pub open spec fn items_of(msg: MessageView) -> Seq<InputItemView> {
    responses::input_items(msg)->Ok_0
}

proof fn lemma_all_items(messages: Seq<MessageView>)
    ensures
        (forall|i: int| 0 <= i < messages.len() ==> sendable(#[trigger] messages[i]))
            ==> responses::all_input_items(messages) == Ok::<_, ModelErrorView>(
            messages.flat_map(|m: MessageView| items_of(m)),
        ),
        (exists|i: int| 0 <= i < messages.len() && !sendable(#[trigger] messages[i]))
            ==> responses::all_input_items(messages) matches Err(ModelErrorView::InvalidRequest(_)),
    decreases messages.len(),
{
    let f = |m: MessageView| items_of(m);
    if messages.len() == 0 {
        flat::lemma_flat_empty(messages, f);
    } else {
        let front = messages.drop_last();
        lemma_all_items(front);
        law_responses_message_is_sent(messages.last());
        flat::lemma_flat_last(messages, f);
        assert(forall|i: int| 0 <= i < front.len() ==> front[i] == messages[i]);
        if exists|i: int| 0 <= i < messages.len() && !sendable(#[trigger] messages[i]) {
            let i = choose|i: int| 0 <= i < messages.len() && !sendable(#[trigger] messages[i]);
            if i < front.len() {
                assert(!sendable(front[i]));
            } else {
                assert(i == messages.len() - 1);
                if forall|j: int| 0 <= j < front.len() ==> sendable(#[trigger] front[j]) {
                } else {
                    let j = choose|j: int| 0 <= j < front.len() && !sendable(#[trigger] front[j]);
                    assert(!sendable(front[j]));
                }
            }
        }
    }
}

/// The whole conversation is sent to Responses: all that the messages say, in order. Only a message
/// that cannot be sent stops that.
pub proof fn law_responses_conversation_is_sent(model_id: Seq<char>, req: RequestView)
    ensures
        ({
            let all = forall|i: int|
                0 <= i < req.messages.len() ==> sendable(#[trigger] req.messages[i]);
            match responses::responses_request(model_id, req) {
                Ok(body) => {
                    &&& all
                    &&& body.input == req.messages.flat_map(|m: MessageView| items_of(m))
                    &&& forall|i: int|
                        0 <= i < req.messages.len() ==> items_say(
                            #[trigger] req.messages[i],
                            items_of(req.messages[i]),
                        )
                },
                Err(e) => !all && e is InvalidRequest,
            }
        }),
{
    lemma_all_items(req.messages);
    assert forall|i: int|
        0 <= i < req.messages.len() && sendable(#[trigger] req.messages[i]) implies items_say(
        req.messages[i],
        items_of(req.messages[i]),
    ) by {
        law_responses_message_is_sent(req.messages[i]);
    }
}

} // verus!
