//! From a request to the body that the Messages API takes.

use crate::anthropic::models::{
    MessagesRequest, MessagesRequestView, WireContent, WireContentView, WireMessage,
    WireMessageView, WireTool, WireToolView,
};
use crate::json;
use crate::json::{quote, Json, JsonView};
use crate::key_map;
use crate::language_model::error::{ModelError, ModelErrorView};
use crate::language_model::message::{ContentBlock, ContentBlockView, Message, MessageView, Role};
use crate::language_model::request::{LanguageModelRequest, RequestView};
use crate::language_model::tool::{ToolChoice, ToolChoiceView, ToolSpec, ToolSpecView};
use crate::model;
use crate::text::concat3;
use vstd::prelude::*;
use vstd::string::*;

verus! {

/// The metadata key of a prompt cache hint, such as `{"type": "ephemeral"}`. A hint that is there
/// and is not `null` is attached to the last text block of the last message, system messages and
/// messages without text aside.
pub const CACHE_CONTROL_KEY: &'static str = "anthropic.cache_control";

/// The cap on output tokens where the caller gave none: the API wants one.
pub const DEFAULT_MAX_TOKENS: u32 = 4096;

/// The texts of the text blocks of a message.
pub open spec fn block_texts(content: Seq<ContentBlockView>) -> Seq<Seq<char>>
    decreases content.len(),
{
    if content.len() == 0 {
        Seq::empty()
    } else {
        match content.last() {
            ContentBlockView::Text { text } => block_texts(content.drop_last()).push(text),
            _ => block_texts(content.drop_last()),
        }
    }
}

/// The texts of the system messages.
pub open spec fn system_message_texts(messages: Seq<MessageView>) -> Seq<Seq<char>>
    decreases messages.len(),
{
    if messages.len() == 0 {
        Seq::empty()
    } else if messages.last().role == Role::System {
        system_message_texts(messages.drop_last()) + block_texts(messages.last().content)
    } else {
        system_message_texts(messages.drop_last())
    }
}

/// The texts of the system prompt: the request's own first, then those of the system messages.
pub open spec fn system_texts(req: RequestView) -> Seq<Seq<char>> {
    let own = match req.system {
        Some(s) => seq![s],
        None => Seq::empty(),
    };
    own + system_message_texts(req.messages)
}

/// A text block as JSON.
pub open spec fn text_block_json(text: Seq<char>) -> Seq<char> {
    "{\"text\":"@ + json::quoted(text) + ",\"type\":\"text\"}"@
}

/// Text blocks as JSON, with commas between them.
pub open spec fn text_blocks_json(texts: Seq<Seq<char>>) -> Seq<char>
    decreases texts.len(),
{
    if texts.len() == 0 {
        Seq::empty()
    } else if texts.len() == 1 {
        text_block_json(texts[0])
    } else {
        text_blocks_json(texts.drop_last()) + ","@ + text_block_json(texts.last())
    }
}

/// The system prompt on the wire: an array of text blocks, or nothing.
pub open spec fn wire_system(req: RequestView) -> Option<JsonView> {
    let texts = system_texts(req);
    if texts.len() == 0 {
        None
    } else {
        Some(JsonView::Raw("["@ + text_blocks_json(texts) + "]"@))
    }
}

/// A tool on the wire.
pub open spec fn wire_tool(spec: ToolSpecView) -> WireToolView {
    WireToolView {
        name: spec.name,
        description: spec.description,
        input_schema: spec.input_schema,
    }
}

/// The tool choice on the wire. The API's own default goes unsaid.
pub open spec fn wire_tool_choice(choice: ToolChoiceView) -> Option<JsonView> {
    match choice {
        ToolChoiceView::Auto => None,
        ToolChoiceView::Required => Some(JsonView::Raw("{\"type\":\"any\"}"@)),
        ToolChoiceView::Tool { name } => Some(
            JsonView::Raw("{\"name\":"@ + json::quoted(name) + ",\"type\":\"tool\"}"@),
        ),
        ToolChoiceView::NoTool => Some(JsonView::Raw("{\"type\":\"none\"}"@)),
    }
}

/// The prompt cache hint of a request.
pub open spec fn cache_marker(req: RequestView) -> Option<JsonView> {
    match key_map::get(req.provider_metadata, CACHE_CONTROL_KEY@) {
        Some(JsonView::Null) => None,
        other => other,
    }
}

/// The last text block of a message.
pub open spec fn last_text_block(content: Seq<ContentBlockView>) -> Option<int>
    decreases content.len(),
{
    if content.len() == 0 {
        None
    } else if content.last() is Text {
        Some(content.len() - 1)
    } else {
        last_text_block(content.drop_last())
    }
}

/// The last message with a text block, system messages aside.
pub open spec fn last_text_message(messages: Seq<MessageView>) -> Option<int>
    decreases messages.len(),
{
    if messages.len() == 0 {
        None
    } else if messages.last().role != Role::System && last_text_block(messages.last().content) is Some {
        Some(messages.len() - 1)
    } else {
        last_text_message(messages.drop_last())
    }
}

/// The role of a message on the wire. The results of tools travel in messages of the user.
pub open spec fn wire_role_of(role: Role) -> Result<Seq<char>, ModelErrorView> {
    match role {
        Role::User => Ok("user"@),
        Role::Assistant => Ok("assistant"@),
        Role::Tool => Ok("user"@),
        Role::System => Err(
            ModelErrorView::InvalidRequest(
                "system role messages must be hoisted before reaching map_messages"@,
            ),
        ),
    }
}

/// A content block on the wire.
pub open spec fn wire_block(block: ContentBlockView, cache_control: Option<JsonView>) -> WireContentView {
    match block {
        ContentBlockView::Text { text } => WireContentView::Text { text, cache_control },
        ContentBlockView::ToolUse { id, name, input } => WireContentView::ToolUse {
            id,
            name,
            input,
        },
        ContentBlockView::ToolResult { tool_use_id, content, is_error } => {
            WireContentView::ToolResult { tool_use_id, content, is_error }
        },
        ContentBlockView::Reasoning { text, signature } => WireContentView::Thinking {
            thinking: text,
            signature,
        },
    }
}

/// A message on the wire. The hint goes to its last text block.
pub open spec fn wire_message(msg: MessageView, marker: Option<JsonView>) -> WireMessageView {
    WireMessageView {
        role: wire_role_of(msg.role)->Ok_0,
        content: Seq::new(
            msg.content.len(),
            |j: int|
                wire_block(
                    msg.content[j],
                    if last_text_block(msg.content) == Some(j) {
                        marker
                    } else {
                        None
                    },
                ),
        ),
    }
}

/// The first `n` messages on the wire: all but the system messages, the hint in the last that has
/// text.
pub open spec fn wire_messages(req: RequestView, n: int) -> Seq<WireMessageView>
    decreases n,
{
    if n <= 0 {
        Seq::empty()
    } else if req.messages[n - 1].role == Role::System {
        wire_messages(req, n - 1)
    } else {
        wire_messages(req, n - 1).push(
            wire_message(
                req.messages[n - 1],
                if last_text_message(req.messages) == Some(n - 1) {
                    cache_marker(req)
                } else {
                    None
                },
            ),
        )
    }
}

/// The body of a request.
pub open spec fn wire_request(model_id: Seq<char>, req: RequestView) -> MessagesRequestView {
    MessagesRequestView {
        model: model_id,
        messages: wire_messages(req, req.messages.len() as int),
        system: wire_system(req),
        tools: req.tools.map_values(|t: ToolSpecView| wire_tool(t)),
        tool_choice: wire_tool_choice(req.tool_choice),
        temperature: req.temperature,
        max_tokens: match req.max_tokens {
            Some(n) => n,
            None => DEFAULT_MAX_TOKENS,
        },
        stop_sequences: req.stop,
        stream: true,
    }
}

/// Adds a text block to an array of text blocks that is not closed yet.
fn push_block(out: &mut String, empty: bool, text: &str)
    ensures
        final(out)@ == if empty {
            old(out)@ + text_block_json(text@)
        } else {
            old(out)@ + ","@ + text_block_json(text@)
        },
{
    let ghost before = out@;
    let block = concat3("{\"text\":", quote(text).as_str(), ",\"type\":\"text\"}");
    if !empty {
        out.append(",");
    }
    out.append(block.as_str());
}

proof fn lemma_blocks_push(texts: Seq<Seq<char>>, text: Seq<char>)
    ensures
        text_blocks_json(texts.push(text)) == if texts.len() == 0 {
            text_block_json(text)
        } else {
            text_blocks_json(texts) + ","@ + text_block_json(text)
        },
{
    assert(texts.push(text).drop_last() =~= texts);
}

/// The system prompt on the wire.
pub fn build_system(req: &LanguageModelRequest) -> (r: Option<Json>)
    ensures
        r.deep_view() == wire_system(req@),
{
    let ghost v = req@;
    let ghost mut texts: Seq<Seq<char>> = Seq::empty();
    let mut out = "[".to_owned();
    let mut empty = true;
    let ghost own = match v.system {
        Some(s) => seq![s],
        None => Seq::empty(),
    };
    assert(out@ =~= "["@ + text_blocks_json(texts));
    match &req.system {
        Some(s) => {
            push_block(&mut out, empty, s.as_str());
            empty = false;
            proof {
                texts = seq![s@];
                assert(out@ =~= "["@ + text_blocks_json(texts));
            }
        },
        None => {},
    }
    let mut i: usize = 0;
    assert(v.messages.take(0) =~= Seq::empty());
    assert(texts =~= own + system_message_texts(v.messages.take(0)));
    while i < req.messages.len()
        invariant
            i <= req.messages@.len(),
            v == req@,
            texts == own + system_message_texts(v.messages.take(i as int)),
            empty == (texts.len() == 0),
            out@ == "["@ + text_blocks_json(texts),
        decreases req.messages@.len() - i,
    {
        let ghost m = v.messages[i as int];
        let ghost start = texts;
        assert(m == req.messages@[i as int]@);
        assert(v.messages.take(i + 1).drop_last() =~= v.messages.take(i as int));
        if req.messages[i].role == Role::System {
            let mut j: usize = 0;
            assert(m.content.take(0) =~= Seq::empty());
            assert(texts =~= start + block_texts(m.content.take(0)));
            while j < req.messages[i].content.len()
                invariant
                    i < req.messages@.len(),
                    j <= req.messages@[i as int].content@.len(),
                    v == req@,
                    m == req.messages@[i as int]@,
                    texts == start + block_texts(m.content.take(j as int)),
                    empty == (texts.len() == 0),
                    out@ == "["@ + text_blocks_json(texts),
                decreases req.messages@[i as int].content@.len() - j,
            {
                assert(m.content[j as int] == req.messages@[i as int].content@[j as int]@);
                assert(m.content.take(j + 1).drop_last() =~= m.content.take(j as int));
                match &req.messages[i].content[j] {
                    ContentBlock::Text { text } => {
                        let ghost before = out@;
                        push_block(&mut out, empty, text.as_str());
                        empty = false;
                        proof {
                            lemma_blocks_push(texts, text@);
                            assert(out@ =~= "["@ + text_blocks_json(texts.push(text@)));
                            texts = texts.push(text@);
                            assert(texts =~= start + block_texts(m.content.take(j + 1)));
                        }
                    },
                    _ => {},
                }
                j = j + 1;
            }
            assert(m.content.take(j as int) =~= m.content);
            assert(texts =~= own + system_message_texts(v.messages.take(i + 1)));
        }
        i = i + 1;
    }
    assert(v.messages.take(i as int) =~= v.messages);
    if empty {
        None
    } else {
        out.append("]");
        Some(Json::Raw(out))
    }
}

/// A tool on the wire.
pub fn map_tool(spec: &ToolSpec) -> (r: WireTool)
    ensures
        r@ == wire_tool(spec@),
{
    WireTool {
        name: spec.name.clone(),
        description: spec.description.clone(),
        input_schema: spec.input_schema.clone(),
    }
}

/// The tool choice on the wire.
pub fn map_tool_choice(choice: &ToolChoice) -> (r: Result<Option<Json>, ModelError>)
    ensures
        model::result_view(r) == Ok::<Option<JsonView>, ModelErrorView>(wire_tool_choice(choice@)),
{
    Ok(
        match choice {
            ToolChoice::Auto => None,
            ToolChoice::Required => Some(Json::Raw("{\"type\":\"any\"}".to_owned())),
            ToolChoice::Tool { name } => Some(
                Json::Raw(
                    concat3("{\"name\":", quote(name.as_str()).as_str(), ",\"type\":\"tool\"}"),
                ),
            ),
            ToolChoice::NoTool => Some(Json::Raw("{\"type\":\"none\"}".to_owned())),
        },
    )
}

/// The role of a message on the wire.
pub fn wire_role(msg: &Message) -> (r: Result<&'static str, ModelError>)
    ensures
        model::result_view(r) == wire_role_of(msg.role),
{
    match msg.role {
        Role::User => Ok("user"),
        Role::Assistant => Ok("assistant"),
        Role::Tool => Ok("user"),
        Role::System => Err(
            ModelError::InvalidRequest(
                "system role messages must be hoisted before reaching map_messages".to_owned(),
            ),
        ),
    }
}

/// A content block on the wire.
pub fn map_block(block: &ContentBlock, cache_control: Option<Json>) -> (r: Result<
    WireContent,
    ModelError,
>)
    ensures
        model::result_view(r) == Ok::<WireContentView, ModelErrorView>(
            wire_block(block@, cache_control.deep_view()),
        ),
{
    Ok(
        match block {
            ContentBlock::Text { text } => WireContent::Text { text: text.clone(), cache_control },
            ContentBlock::ToolUse { id, name, input } => WireContent::ToolUse {
                id: id.clone(),
                name: name.clone(),
                input: input.clone(),
            },
            ContentBlock::ToolResult { tool_use_id, content, is_error } => WireContent::ToolResult {
                tool_use_id: tool_use_id.clone(),
                content: content.clone(),
                is_error: *is_error,
            },
            ContentBlock::Reasoning { text, signature } => WireContent::Thinking {
                thinking: text.clone(),
                signature: signature.clone(),
            },
        },
    )
}

/// The last text block of a message.
fn find_last_text(content: &Vec<ContentBlock>) -> (r: Option<usize>)
    ensures
        match r {
            Some(i) => last_text_block(content.deep_view()) == Some(i as int),
            None => last_text_block(content.deep_view()) is None,
        },
{
    let ghost all = content.deep_view();
    let mut i: usize = content.len();
    assert(all.take(all.len() as int) =~= all);
    while i > 0
        invariant
            i <= content@.len(),
            all == content.deep_view(),
            last_text_block(all) == last_text_block(all.take(i as int)),
        decreases i,
    {
        assert(all.take(i as int).last() == content@[i - 1]@);
        assert(all.take(i as int).drop_last() =~= all.take(i - 1));
        match &content[i - 1] {
            ContentBlock::Text { .. } => {
                return Some(i - 1);
            },
            _ => {},
        }
        i = i - 1;
    }
    None
}

/// The last message with a text block, system messages aside.
fn find_last_text_message(messages: &Vec<Message>) -> (r: Option<usize>)
    ensures
        match r {
            Some(i) => last_text_message(messages.deep_view()) == Some(i as int),
            None => last_text_message(messages.deep_view()) is None,
        },
{
    let ghost all = messages.deep_view();
    let mut i: usize = messages.len();
    assert(all.take(all.len() as int) =~= all);
    while i > 0
        invariant
            i <= messages@.len(),
            all == messages.deep_view(),
            last_text_message(all) == last_text_message(all.take(i as int)),
        decreases i,
    {
        assert(all.take(i as int).last() == messages@[i - 1]@);
        assert(all.take(i as int).drop_last() =~= all.take(i - 1));
        if messages[i - 1].role != Role::System && find_last_text(&messages[i - 1].content).is_some() {
            return Some(i - 1);
        }
        i = i - 1;
    }
    None
}

/// The messages on the wire.
pub fn map_messages(req: &LanguageModelRequest) -> (r: Result<Vec<WireMessage>, ModelError>)
    ensures
        model::result_view(r) == Ok::<Seq<WireMessageView>, ModelErrorView>(
            wire_messages(req@, req@.messages.len() as int),
        ),
{
    let ghost v = req@;
    let key = CACHE_CONTROL_KEY.to_owned();
    let marker: Option<Json> = match req.provider_metadata.get(&key) {
        Some(hint) => if hint.is_null() {
            None
        } else {
            Some(hint.clone())
        },
        None => None,
    };
    let target = find_last_text_message(&req.messages);
    let mut out: Vec<WireMessage> = Vec::new();
    let mut i: usize = 0;
    while i < req.messages.len()
        invariant
            i <= req.messages@.len(),
            v == req@,
            marker.deep_view() == cache_marker(v),
            match target {
                Some(k) => last_text_message(v.messages) == Some(k as int),
                None => last_text_message(v.messages) is None,
            },
            out.deep_view() == wire_messages(v, i as int),
        decreases req.messages@.len() - i,
    {
        let msg = &req.messages[i];
        let ghost m = v.messages[i as int];
        assert(m == msg@);
        if msg.role != Role::System {
            let role = match wire_role(msg) {
                Ok(role) => role,
                Err(e) => {
                    return Err(e);
                },
            };
            let is_target = match target {
                Some(k) => k == i,
                None => false,
            };
            let ghost hint = if last_text_message(v.messages) == Some(i as int) {
                cache_marker(v)
            } else {
                None
            };
            let last = find_last_text(&msg.content);
            let mut content: Vec<WireContent> = Vec::new();
            let mut j: usize = 0;
            while j < msg.content.len()
                invariant
                    j <= msg.content@.len(),
                    m == msg@,
                    marker.deep_view() == cache_marker(v),
                    hint == if is_target {
                        cache_marker(v)
                    } else {
                        None
                    },
                    match last {
                        Some(k) => last_text_block(m.content) == Some(k as int),
                        None => last_text_block(m.content) is None,
                    },
                    content.deep_view() == wire_message(m, hint).content.take(j as int),
                decreases msg.content@.len() - j,
            {
                assert(m.content[j as int] == msg.content@[j as int]@);
                let marked = match last {
                    Some(k) => is_target && k == j,
                    None => false,
                };
                let cache_control = if marked {
                    marker.clone()
                } else {
                    None
                };
                let ghost so_far = content.deep_view();
                let block = match map_block(&msg.content[j], cache_control) {
                    Ok(block) => block,
                    Err(e) => {
                        return Err(e);
                    },
                };
                let ghost b = block@;
                content.push(block);
                assert(content.deep_view() =~= so_far.push(b));
                assert(wire_message(m, hint).content.take(j + 1) =~= so_far.push(
                    wire_message(m, hint).content[j as int],
                ));
                j = j + 1;
            }
            assert(wire_message(m, hint).content.take(j as int) =~= wire_message(m, hint).content);
            let ghost so_far = out.deep_view();
            out.push(WireMessage { role, content });
            assert(out.deep_view() =~= so_far.push(wire_message(m, hint)));
        }
        i = i + 1;
    }
    Ok(out)
}

/// The body of a request.
pub fn build_request(model_id: &str, req: &LanguageModelRequest) -> (r: Result<
    MessagesRequest,
    ModelError,
>)
    ensures
        model::result_view(r) == Ok::<MessagesRequestView, ModelErrorView>(
            wire_request(model_id@, req@),
        ),
{
    let system = build_system(req);
    let mut tools: Vec<WireTool> = Vec::new();
    let mut i: usize = 0;
    let ghost want = req@.tools.map_values(|t: ToolSpecView| wire_tool(t));
    while i < req.tools.len()
        invariant
            i <= req.tools@.len(),
            tools@.len() == i,
            want == req@.tools.map_values(|t: ToolSpecView| wire_tool(t)),
            forall|j: int| 0 <= j < i ==> (#[trigger] tools@[j])@ == want[j],
        decreases req.tools@.len() - i,
    {
        assert(req@.tools[i as int] == req.tools@[i as int]@);
        tools.push(map_tool(&req.tools[i]));
        i = i + 1;
    }
    assert(tools.deep_view() =~= want);
    let tool_choice = match map_tool_choice(&req.tool_choice) {
        Ok(choice) => choice,
        Err(e) => {
            return Err(e);
        },
    };
    let messages = match map_messages(req) {
        Ok(messages) => messages,
        Err(e) => {
            return Err(e);
        },
    };
    let stop_sequences = req.stop.clone();
    assert(stop_sequences.deep_view() =~= req.stop.deep_view());
    Ok(
        MessagesRequest {
            model: model_id.to_owned(),
            messages,
            system,
            tools,
            tool_choice,
            temperature: req.temperature,
            max_tokens: match req.max_tokens {
                Some(n) => n,
                None => DEFAULT_MAX_TOKENS,
            },
            stop_sequences,
            stream: true,
        },
    )
}

/// The number of messages that are not of the system.
pub open spec fn spoken(messages: Seq<MessageView>) -> nat
    decreases messages.len(),
{
    if messages.len() == 0 {
        0
    } else {
        spoken(messages.drop_last()) + if messages.last().role == Role::System {
            0nat
        } else {
            1nat
        }
    }
}

/// No system message travels among the messages, every other one does, and each travels as the
/// user's or the assistant's.
pub proof fn law_roles_on_the_wire(req: RequestView, n: int)
    requires
        0 <= n <= req.messages.len(),
    ensures
        wire_messages(req, n).len() == spoken(req.messages.take(n)),
        forall|i: int|
            0 <= i < wire_messages(req, n).len() ==> (#[trigger] wire_messages(req, n)[i]).role
                == "user"@ || wire_messages(req, n)[i].role == "assistant"@,
    decreases n,
{
    if n > 0 {
        law_roles_on_the_wire(req, n - 1);
        assert(req.messages.take(n).drop_last() =~= req.messages.take(n - 1));
        assert(req.messages.take(n).last() == req.messages[n - 1]);
        let front = wire_messages(req, n - 1);
        let all = wire_messages(req, n);
        assert forall|i: int| 0 <= i < all.len() implies (#[trigger] all[i]).role == "user"@
            || all[i].role == "assistant"@ by {
            if i < front.len() {
                assert(all[i] == front[i]);
            }
        }
    }
}

proof fn lemma_last_text_block(content: Seq<ContentBlockView>)
    ensures
        last_text_block(content) matches Some(j) ==> 0 <= j < content.len() && content[j] is Text,
    decreases content.len(),
{
    if content.len() > 0 && !(content.last() is Text) {
        lemma_last_text_block(content.drop_last());
    }
}

/// The prompt cache hint goes to one text block of a message at most, and to no other kind of
/// block; without a hint no block carries one.
pub proof fn law_hint_on_one_block(msg: MessageView, marker: Option<JsonView>, i: int, j: int)
    requires
        0 <= i < msg.content.len(),
        0 <= j < msg.content.len(),
    ensures
        ({
            let wire = wire_message(msg, marker).content;
            &&& hint_of(wire[i]) is Some && hint_of(wire[j]) is Some ==> i == j
            &&& hint_of(wire[i]) is Some ==> hint_of(wire[i]) == marker && msg.content[i] is Text
        }),
{
    lemma_last_text_block(msg.content);
}

/// The prompt cache hint of a block.
pub open spec fn hint_of(block: WireContentView) -> Option<JsonView> {
    match block {
        WireContentView::Text { cache_control, .. } => cache_control,
        _ => None,
    }
}

proof fn lemma_messages_of(req: RequestView, other: RequestView, n: int)
    requires
        0 <= n <= req.messages.len(),
        other.messages == req.messages,
        cache_marker(other) == cache_marker(req),
    ensures
        wire_messages(other, n) == wire_messages(req, n),
    decreases n,
{
    if n > 0 {
        lemma_messages_of(req, other, n - 1);
    }
}

/// Metadata that is not for this provider makes no difference: only the hint counts.
pub proof fn law_foreign_metadata_is_ignored(
    model_id: Seq<char>,
    req: RequestView,
    metadata: Seq<(Seq<char>, JsonView)>,
)
    requires
        key_map::get(metadata, CACHE_CONTROL_KEY@) == key_map::get(
            req.provider_metadata,
            CACHE_CONTROL_KEY@,
        ),
    ensures
        wire_request(model_id, RequestView { provider_metadata: metadata, ..req }) == wire_request(
            model_id,
            req,
        ),
{
    let other = RequestView { provider_metadata: metadata, ..req };
    lemma_messages_of(req, other, req.messages.len() as int);
}

} // verus!
