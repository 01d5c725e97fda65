//! What a request says to the Messages API.

use crate::anthropic::models::{WireContentView, WireMessageView};
use crate::anthropic::request_map;
use crate::flat;
use crate::json;
use crate::json::JsonView;
use crate::key_map;
use crate::language_model::message::{ContentBlockView, MessageView, Role};
use crate::language_model::request::RequestView;
use crate::language_model::tool::ToolChoiceView;
use vstd::prelude::*;

verus! {

/// The body keeps the settings of the request: the model, the temperature, the stop texts, the cap
/// on output tokens where there is one, and the tools, each with its name, its description and its
/// schema. The answer is to be streamed.
pub proof fn law_settings_are_kept(model_id: Seq<char>, req: RequestView)
    ensures
        ({
            let body = request_map::wire_request(model_id, req);
            &&& body.model == model_id
            &&& body.temperature == req.temperature
            &&& body.stop_sequences == req.stop
            &&& body.stream
            &&& match req.max_tokens {
                Some(n) => body.max_tokens == n,
                None => body.max_tokens == 4096,
            }
            &&& body.tools.len() == req.tools.len()
            &&& forall|i: int|
                0 <= i < req.tools.len() ==> {
                    &&& (#[trigger] body.tools[i]).name == req.tools[i].name
                    &&& body.tools[i].description == req.tools[i].description
                    &&& body.tools[i].input_schema == req.tools[i].input_schema
                }
        }),
{
}

/// The body says how tools are to be picked: nothing where that is left to the model.
pub proof fn law_tool_choice_is_kept(model_id: Seq<char>, req: RequestView)
    ensures
        ({
            let said = request_map::wire_request(model_id, req).tool_choice;
            match req.tool_choice {
                ToolChoiceView::Auto => said is None,
                ToolChoiceView::Required => said == Some(JsonView::Raw("{\"type\":\"any\"}"@)),
                ToolChoiceView::NoTool => said == Some(JsonView::Raw("{\"type\":\"none\"}"@)),
                ToolChoiceView::Tool { name } => said == Some(
                    JsonView::Raw("{\"name\":"@ + json::quoted(name) + ",\"type\":\"tool\"}"@),
                ),
            }
        }),
{
}

/// Whether a block on the wire holds what a block of the conversation holds.
pub open spec fn same_block(block: ContentBlockView, wire: WireContentView) -> bool {
    match (block, wire) {
        (ContentBlockView::Text { text }, WireContentView::Text { text: sent, .. }) => sent == text,
        (
            ContentBlockView::ToolUse { id, name, input },
            WireContentView::ToolUse { id: sent_id, name: sent_name, input: sent_input },
        ) => sent_id == id && sent_name == name && sent_input == input,
        (
            ContentBlockView::ToolResult { tool_use_id, content, is_error },
            WireContentView::ToolResult {
                tool_use_id: sent_id,
                content: sent_content,
                is_error: sent_error,
            },
        ) => sent_id == tool_use_id && sent_content == content && sent_error == is_error,
        (
            ContentBlockView::Reasoning { text, signature },
            WireContentView::Thinking { thinking, signature: sent_signature },
        ) => thinking == text && sent_signature == signature,
        _ => false,
    }
}

/// Whether a message on the wire says what a message of the conversation says, block by block. All
/// but the assistant speak as the user.
pub open spec fn same_message(msg: MessageView, wire: WireMessageView) -> bool {
    &&& wire.role == if msg.role == Role::Assistant {
        "assistant"@
    } else {
        "user"@
    }
    &&& wire.content.len() == msg.content.len()
    &&& forall|j: int|
        0 <= j < msg.content.len() ==> same_block(#[trigger] msg.content[j], wire.content[j])
}

/// Whether a message is part of the conversation, and not of the system prompt.
pub open spec fn is_spoken(msg: MessageView) -> bool {
    msg.role != Role::System
}

/// The messages that are not of the system.
pub open spec fn spoken(messages: Seq<MessageView>) -> Seq<MessageView> {
    messages.filter(|m: MessageView| is_spoken(m))
}

proof fn lemma_conversation(req: RequestView, n: int)
    requires
        0 <= n <= req.messages.len(),
    ensures
        ({
            let said = spoken(req.messages.take(n));
            let wire = request_map::wire_messages(req, n);
            &&& wire.len() == said.len()
            &&& forall|k: int|
                0 <= k < said.len() ==> same_message(#[trigger] said[k], wire[k])
        }),
    decreases n,
{
    if n > 0 {
        lemma_conversation(req, n - 1);
        let front = req.messages.take(n - 1);
        assert(req.messages.take(n).drop_last() =~= front);
        assert(req.messages.take(n).last() == req.messages[n - 1]);
        let before = spoken(front);
        let said = spoken(req.messages.take(n));
        let wire = request_map::wire_messages(req, n);
        reveal(Seq::filter);
        assert(said == if is_spoken(req.messages[n - 1]) {
            before.push(req.messages[n - 1])
        } else {
            before
        });
        assert forall|k: int| 0 <= k < said.len() implies same_message(
            #[trigger] said[k],
            wire[k],
        ) by {
            if k < before.len() {
                assert(same_message(before[k], request_map::wire_messages(req, n - 1)[k]));
            }
        }
    }
}

/// The whole conversation is sent: the messages that are not of the system, all of them, in order,
/// each with all its blocks.
pub proof fn law_conversation_is_sent(model_id: Seq<char>, req: RequestView)
    ensures
        ({
            let said = spoken(req.messages);
            let wire = request_map::wire_request(model_id, req).messages;
            &&& wire.len() == said.len()
            &&& forall|k: int|
                0 <= k < said.len() ==> same_message(#[trigger] said[k], wire[k])
        }),
{
    assert(req.messages.take(req.messages.len() as int) =~= req.messages);
    lemma_conversation(req, req.messages.len() as int);
}

/// The text of a block, where it is a text block.
pub open spec fn text_in(block: ContentBlockView) -> Seq<Seq<char>> {
    match block {
        ContentBlockView::Text { text } => seq![text],
        _ => Seq::empty(),
    }
}

/// The texts of a message, where it is of the system.
pub open spec fn system_in(msg: MessageView) -> Seq<Seq<char>> {
    if msg.role == Role::System {
        msg.content.flat_map(|b: ContentBlockView| text_in(b))
    } else {
        Seq::empty()
    }
}

/// Some texts with commas between them.
pub open spec fn with_commas(parts: Seq<Seq<char>>) -> Seq<char>
    decreases parts.len(),
{
    if parts.len() == 0 {
        Seq::empty()
    } else if parts.len() == 1 {
        parts[0]
    } else {
        parts[0] + ","@ + with_commas(parts.drop_first())
    }
}

proof fn lemma_with_commas(parts: Seq<Seq<char>>)
    requires
        parts.len() > 1,
    ensures
        with_commas(parts) == with_commas(parts.drop_last()) + ","@ + parts.last(),
    decreases parts.len(),
{
    let rest = parts.drop_first();
    if parts.len() == 2 {
        assert(with_commas(rest) == parts[1]);
        assert(with_commas(parts.drop_last()) == parts[0]);
        assert(with_commas(parts) =~= with_commas(parts.drop_last()) + ","@ + parts.last());
    } else {
        lemma_with_commas(rest);
        assert(parts.drop_last().drop_first() =~= rest.drop_last());
        assert(with_commas(parts) =~= with_commas(parts.drop_last()) + ","@ + parts.last());
    }
}

/// A text as a block of the system prompt.
pub open spec fn system_block(text: Seq<char>) -> Seq<char> {
    "{\"text\":"@ + json::quoted(text) + ",\"type\":\"text\"}"@
}

proof fn lemma_blocks(texts: Seq<Seq<char>>)
    ensures
        request_map::text_blocks_json(texts) == with_commas(
            texts.map_values(|t: Seq<char>| system_block(t)),
        ),
    decreases texts.len(),
{
    let parts = texts.map_values(|t: Seq<char>| system_block(t));
    if texts.len() > 1 {
        lemma_blocks(texts.drop_last());
        lemma_with_commas(parts);
        assert(parts.drop_last() =~= texts.drop_last().map_values(
            |t: Seq<char>| system_block(t),
        ));
    }
}

proof fn lemma_block_texts(content: Seq<ContentBlockView>)
    ensures
        request_map::block_texts(content) == content.flat_map(|b: ContentBlockView| text_in(b)),
    decreases content.len(),
{
    let f = |b: ContentBlockView| text_in(b);
    if content.len() == 0 {
        flat::lemma_flat_empty(content, f);
    } else {
        lemma_block_texts(content.drop_last());
        flat::lemma_flat_last(content, f);
        assert(request_map::block_texts(content) =~= content.flat_map(f));
    }
}

proof fn lemma_system_texts(messages: Seq<MessageView>)
    ensures
        request_map::system_message_texts(messages) == messages.flat_map(
            |m: MessageView| system_in(m),
        ),
    decreases messages.len(),
{
    let f = |m: MessageView| system_in(m);
    if messages.len() == 0 {
        flat::lemma_flat_empty(messages, f);
    } else {
        lemma_system_texts(messages.drop_last());
        lemma_block_texts(messages.last().content);
        flat::lemma_flat_last(messages, f);
        assert(request_map::system_message_texts(messages) =~= messages.flat_map(f));
    }
}

/// The system prompt is sent: the request's own, and then every text of every system message, in
/// order, each as a text block; nothing where there is none.
pub proof fn law_system_prompt_is_sent(model_id: Seq<char>, req: RequestView)
    ensures
        ({
            let own = match req.system {
                Some(s) => seq![s],
                None => Seq::empty(),
            };
            let texts = own + req.messages.flat_map(|m: MessageView| system_in(m));
            let sent = request_map::wire_request(model_id, req).system;
            if texts.len() == 0 {
                sent is None
            } else {
                sent == Some(
                    JsonView::Raw(
                        "["@ + with_commas(texts.map_values(|t: Seq<char>| system_block(t)))
                            + "]"@,
                    ),
                )
            }
        }),
{
    lemma_system_texts(req.messages);
    let own = match req.system {
        Some(s) => seq![s],
        None => Seq::empty(),
    };
    lemma_blocks(own + req.messages.flat_map(|m: MessageView| system_in(m)));
}

/// The prompt cache hint that a block carries.
pub open spec fn hint_on(block: WireContentView) -> Option<JsonView> {
    match block {
        WireContentView::Text { cache_control, .. } => cache_control,
        _ => None,
    }
}

/// Whether no block of a message carries a hint.
pub open spec fn no_hint(m: WireMessageView) -> bool {
    forall|j: int| 0 <= j < m.content.len() ==> hint_on(#[trigger] m.content[j]) is None
}

/// Whether no block of a message is text.
pub open spec fn no_text(m: WireMessageView) -> bool {
    forall|j: int| 0 <= j < m.content.len() ==> !((#[trigger] m.content[j]) is Text)
}

/// Whether the block at a place is text and carries the hint, no other block of its message does,
/// and no block behind it in the message is text.
pub open spec fn marked(m: WireMessageView, j0: int, hint: JsonView) -> bool {
    &&& 0 <= j0 < m.content.len()
    &&& m.content[j0] is Text
    &&& hint_on(m.content[j0]) == Some(hint)
    &&& forall|j: int|
        0 <= j < m.content.len() && j != j0 ==> hint_on(#[trigger] m.content[j]) is None
    &&& forall|j: int| j0 < j < m.content.len() ==> !((#[trigger] m.content[j]) is Text)
}

/// Whether the last text block of the messages carries the hint, and no other block does.
pub open spec fn hint_at(wire: Seq<WireMessageView>, k0: int, j0: int, hint: JsonView) -> bool {
    &&& 0 <= k0 < wire.len()
    &&& marked(wire[k0], j0, hint)
    &&& forall|k: int| 0 <= k < wire.len() && k != k0 ==> no_hint(#[trigger] wire[k])
    &&& forall|k: int| k0 < k < wire.len() ==> no_text(#[trigger] wire[k])
}

proof fn lemma_last_text(content: Seq<ContentBlockView>)
    ensures
        match request_map::last_text_block(content) {
            Some(j0) => 0 <= j0 < content.len() && content[j0] is Text && forall|j: int|
                j0 < j < content.len() ==> !((#[trigger] content[j]) is Text),
            None => forall|j: int| 0 <= j < content.len() ==> !((#[trigger] content[j]) is Text),
        },
    decreases content.len(),
{
    if content.len() > 0 && !(content.last() is Text) {
        let front = content.drop_last();
        lemma_last_text(front);
        assert forall|j: int| 0 <= j < content.len() implies content[j] == (if j < front.len() {
            front[j]
        } else {
            content.last()
        }) by {}
    }
}

proof fn lemma_last_text_message(messages: Seq<MessageView>)
    ensures
        match request_map::last_text_message(messages) {
            Some(t) => 0 <= t < messages.len() && is_spoken(messages[t])
                && request_map::last_text_block(messages[t].content) is Some && forall|i: int|
                t < i < messages.len() && is_spoken(#[trigger] messages[i])
                    ==> request_map::last_text_block(messages[i].content) is None,
            None => forall|i: int|
                0 <= i < messages.len() && is_spoken(#[trigger] messages[i])
                    ==> request_map::last_text_block(messages[i].content) is None,
        },
    decreases messages.len(),
{
    if messages.len() > 0 {
        let front = messages.drop_last();
        lemma_last_text_message(front);
        assert forall|j: int| 0 <= j < messages.len() implies messages[j] == (if j < front.len() {
            front[j]
        } else {
            messages.last()
        }) by {}
    }
}

proof fn lemma_hint(req: RequestView, n: int)
    requires
        0 <= n <= req.messages.len(),
    ensures
        ({
            let wire = request_map::wire_messages(req, n);
            match (request_map::cache_marker(req), request_map::last_text_message(req.messages)) {
                (Some(hint), Some(t)) => if t < n {
                    exists|k: int, j: int| hint_at(wire, k, j, hint)
                } else {
                    forall|k: int| 0 <= k < wire.len() ==> no_hint(#[trigger] wire[k])
                },
                (Some(_), None) => forall|k: int|
                    0 <= k < wire.len() ==> no_hint(#[trigger] wire[k]) && no_text(wire[k]),
                (None, _) => forall|k: int| 0 <= k < wire.len() ==> no_hint(#[trigger] wire[k]),
            }
        }),
    decreases n,
{
    lemma_last_text_message(req.messages);
    if n > 0 {
        lemma_hint(req, n - 1);
        let msg = req.messages[n - 1];
        let before = request_map::wire_messages(req, n - 1);
        let wire = request_map::wire_messages(req, n);
        lemma_last_text(msg.content);
        match (request_map::cache_marker(req), request_map::last_text_message(req.messages)) {
            (Some(hint), Some(t)) => {
                if t < n - 1 {
                    let (k, j) = choose|k: int, j: int| hint_at(before, k, j, hint);
                    if is_spoken(msg) {
                        assert(no_text(wire.last()));
                        assert(no_hint(wire.last()));
                        assert forall|i: int| 0 <= i < wire.len() implies wire[i] == (if i
                            < before.len() {
                            before[i]
                        } else {
                            wire.last()
                        }) by {}
                    }
                    assert(hint_at(wire, k, j, hint));
                } else if t == n - 1 {
                    let j = request_map::last_text_block(msg.content)->0;
                    assert(marked(wire.last(), j, hint));
                    assert(hint_at(wire, wire.len() - 1, j, hint));
                } else if is_spoken(msg) {
                    assert(no_hint(wire.last()));
                }
            },
            (Some(_), None) => {
                if is_spoken(msg) {
                    assert(no_hint(wire.last()) && no_text(wire.last()));
                }
            },
            (None, _) => {
                if is_spoken(msg) {
                    assert(no_hint(wire.last()));
                }
            },
        }
    }
}

/// A prompt cache hint goes to the last text block that is sent, and to no other block; where there
/// is none, or it is `null`, no block carries one.
pub proof fn law_hint_goes_to_the_last_text(model_id: Seq<char>, req: RequestView)
    ensures
        ({
            let wire = request_map::wire_request(model_id, req).messages;
            match key_map::get(req.provider_metadata, "anthropic.cache_control"@) {
                Some(hint) if hint != JsonView::Null => {
                    ||| exists|k: int, j: int| hint_at(wire, k, j, hint)
                    ||| forall|k: int|
                        0 <= k < wire.len() ==> no_hint(#[trigger] wire[k]) && no_text(wire[k])
                },
                _ => forall|k: int| 0 <= k < wire.len() ==> no_hint(#[trigger] wire[k]),
            }
        }),
{
    lemma_last_text_message(req.messages);
    lemma_hint(req, req.messages.len() as int);
}

} // verus!
