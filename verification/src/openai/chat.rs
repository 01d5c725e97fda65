//! The Chat Completions API: from a request to the body that it takes, and what it streams.

use crate::json;
use crate::json::{quote, Json, JsonView};
use crate::key_map;
use crate::language_model::error::{ModelError, ModelErrorView};
use crate::language_model::message::{ContentBlock, ContentBlockView, Message, MessageView, Role};
use crate::language_model::request::{LanguageModelRequest, RequestView, Temperature};
use crate::language_model::tool::{ToolChoice, ToolChoiceView, ToolSpec, ToolSpecView};
use crate::model;
use crate::openai::models::WireUsage;
use crate::text::concat3;
use vstd::prelude::*;
use vstd::string::*;

verus! {

/// The metadata key that opts out of parallel tool calls. The API's default is to allow them.
pub const PARALLEL_TOOL_CALLS_KEY: &'static str = "openai.parallel_tool_calls";

/// The body of a request.
#[derive(Debug, PartialEq, Eq)]
pub struct ChatRequest {
    pub model: String,
    pub messages: Vec<ChatMessage>,
    pub tools: Vec<ChatTool>,
    pub tool_choice: Option<Json>,
    pub temperature: Option<Temperature>,
    pub max_tokens: Option<u32>,
    pub stop: Vec<String>,
    pub parallel_tool_calls: Option<bool>,
    pub stream: bool,
    pub stream_options: StreamOptions,
}

/// What the stream is to hold.
#[derive(Debug, Clone, Copy, PartialEq, Eq, Structural)]
pub struct StreamOptions {
    /// Whether the last chunk carries the token counts.
    pub include_usage: bool,
}

/// Model of a request's body.
#[verifier::ext_equal]
pub struct ChatRequestView {
    pub model: Seq<char>,
    pub messages: Seq<ChatMessageView>,
    pub tools: Seq<ChatToolView>,
    pub tool_choice: Option<JsonView>,
    pub temperature: Option<Temperature>,
    pub max_tokens: Option<u32>,
    pub stop: Seq<Seq<char>>,
    pub parallel_tool_calls: Option<bool>,
    pub stream: bool,
    pub stream_options: StreamOptions,
}

impl View for ChatRequest {
    type V = ChatRequestView;

    open spec fn view(&self) -> ChatRequestView {
        ChatRequestView {
            model: self.model@,
            messages: self.messages.deep_view(),
            tools: self.tools.deep_view(),
            tool_choice: self.tool_choice.deep_view(),
            temperature: self.temperature,
            max_tokens: self.max_tokens,
            stop: self.stop.deep_view(),
            parallel_tool_calls: self.parallel_tool_calls,
            stream: self.stream,
            stream_options: self.stream_options,
        }
    }
}

impl DeepView for ChatRequest {
    type V = ChatRequestView;

    open spec fn deep_view(&self) -> ChatRequestView {
        self@
    }
}

/// A message.
#[derive(Debug, PartialEq, Eq)]
pub struct ChatMessage {
    pub role: &'static str,
    pub content: Json,
    pub tool_calls: Vec<ChatToolCallOut>,
    pub tool_call_id: Option<String>,
}

/// Model of a message.
#[verifier::ext_equal]
pub struct ChatMessageView {
    pub role: Seq<char>,
    pub content: JsonView,
    pub tool_calls: Seq<ChatToolCallView>,
    pub tool_call_id: Option<Seq<char>>,
}

impl View for ChatMessage {
    type V = ChatMessageView;

    open spec fn view(&self) -> ChatMessageView {
        ChatMessageView {
            role: self.role@,
            content: self.content@,
            tool_calls: self.tool_calls.deep_view(),
            tool_call_id: self.tool_call_id.deep_view(),
        }
    }
}

impl DeepView for ChatMessage {
    type V = ChatMessageView;

    open spec fn deep_view(&self) -> ChatMessageView {
        self@
    }
}

/// A tool call within a message of the assistant.
#[derive(Debug, PartialEq, Eq)]
pub struct ChatToolCallOut {
    pub id: String,
    pub kind: &'static str,
    pub function: ChatFunctionOut,
}

/// The function that a tool call invokes.
#[derive(Debug, PartialEq, Eq)]
pub struct ChatFunctionOut {
    pub name: String,
    /// The arguments as JSON text.
    pub arguments: String,
}

/// Model of a tool call within a message of the assistant.
#[verifier::ext_equal]
pub struct ChatToolCallView {
    pub id: Seq<char>,
    pub kind: Seq<char>,
    pub name: Seq<char>,
    pub arguments: Seq<char>,
}

impl View for ChatToolCallOut {
    type V = ChatToolCallView;

    open spec fn view(&self) -> ChatToolCallView {
        ChatToolCallView {
            id: self.id@,
            kind: self.kind@,
            name: self.function.name@,
            arguments: self.function.arguments@,
        }
    }
}

impl DeepView for ChatToolCallOut {
    type V = ChatToolCallView;

    open spec fn deep_view(&self) -> ChatToolCallView {
        self@
    }
}

/// A tool.
#[derive(Debug, PartialEq, Eq)]
pub struct ChatTool {
    pub kind: &'static str,
    pub function: ChatToolFunction,
}

/// The function that a tool is.
#[derive(Debug, PartialEq, Eq)]
pub struct ChatToolFunction {
    pub name: String,
    pub description: String,
    pub parameters: Json,
}

/// Model of a tool.
#[verifier::ext_equal]
pub struct ChatToolView {
    pub kind: Seq<char>,
    pub name: Seq<char>,
    pub description: Seq<char>,
    pub parameters: JsonView,
}

impl View for ChatTool {
    type V = ChatToolView;

    open spec fn view(&self) -> ChatToolView {
        ChatToolView {
            kind: self.kind@,
            name: self.function.name@,
            description: self.function.description@,
            parameters: self.function.parameters@,
        }
    }
}

impl DeepView for ChatTool {
    type V = ChatToolView;

    open spec fn deep_view(&self) -> ChatToolView {
        self@
    }
}

/// The text of a message: its text blocks, one after the other.
pub open spec fn text_of_blocks(content: Seq<ContentBlockView>) -> Seq<char>
    decreases content.len(),
{
    if content.len() == 0 {
        Seq::empty()
    } else {
        match content.last() {
            ContentBlockView::Text { text } => text_of_blocks(content.drop_last()) + text,
            _ => text_of_blocks(content.drop_last()),
        }
    }
}

/// The tool calls of a message.
pub open spec fn calls_of_blocks(content: Seq<ContentBlockView>) -> Seq<ChatToolCallView>
    decreases content.len(),
{
    if content.len() == 0 {
        Seq::empty()
    } else {
        match content.last() {
            ContentBlockView::ToolUse { id, name, input } => calls_of_blocks(
                content.drop_last(),
            ).push(
                ChatToolCallView {
                    id,
                    kind: "function"@,
                    name,
                    arguments: json::json_text(input),
                },
            ),
            _ => calls_of_blocks(content.drop_last()),
        }
    }
}

/// The messages that tell of the tool results of a message, one for each.
pub open spec fn results_of_blocks(content: Seq<ContentBlockView>) -> Seq<ChatMessageView>
    decreases content.len(),
{
    if content.len() == 0 {
        Seq::empty()
    } else {
        match content.last() {
            ContentBlockView::ToolResult { tool_use_id, content: body, is_error } => {
                results_of_blocks(content.drop_last()).push(
                    ChatMessageView {
                        role: "tool"@,
                        content: JsonView::Text(json::json_body(body)),
                        tool_calls: Seq::empty(),
                        tool_call_id: Some(tool_use_id),
                    },
                )
            },
            _ => results_of_blocks(content.drop_last()),
        }
    }
}

/// The message that tells of one tool result.
pub open spec fn result_message(block: ContentBlockView) -> ChatMessageView {
    ChatMessageView {
        role: "tool"@,
        content: JsonView::Text(json::json_body(block->ToolResult_content)),
        tool_calls: Seq::empty(),
        tool_call_id: Some(block->tool_use_id),
    }
}

/// Every tool result of a message of the tools is told, in order, under the identifier of its
/// call.
pub proof fn law_results_reach_the_model(content: Seq<ContentBlockView>)
    requires
        forall|i: int| 0 <= i < content.len() ==> (#[trigger] content[i]) is ToolResult,
    ensures
        chat_message(MessageView { role: Role::Tool, content }) == Ok::<_, ModelErrorView>(
            content.map_values(|b: ContentBlockView| result_message(b)),
        ),
    decreases content.len(),
{
    if content.len() > 0 {
        let front = content.drop_last();
        assert forall|i: int| 0 <= i < front.len() implies (#[trigger] front[i]) is ToolResult by {
            assert(front[i] == content[i]);
        }
        law_results_reach_the_model(front);
        assert(content.last() is ToolResult);
    }
    assert(results_of_blocks(content) =~= content.map_values(
        |b: ContentBlockView| result_message(b),
    ));
}

/// Whether a message holds a tool result.
pub open spec fn has_tool_result(content: Seq<ContentBlockView>) -> bool {
    exists|i: int| 0 <= i < content.len() && (#[trigger] content[i]) is ToolResult
}

/// A message with nothing but text.
pub open spec fn plain_message(role: Seq<char>, text: Seq<char>) -> ChatMessageView {
    ChatMessageView {
        role,
        content: JsonView::Text(text),
        tool_calls: Seq::empty(),
        tool_call_id: None,
    }
}

/// A message on the wire. A message of the assistant cannot hold tool results.
pub open spec fn chat_message(msg: MessageView) -> Result<Seq<ChatMessageView>, ModelErrorView> {
    let text = text_of_blocks(msg.content);
    match msg.role {
        Role::System => Ok(seq![plain_message("system"@, text)]),
        Role::User => Ok(seq![plain_message("user"@, text)]),
        Role::Assistant => if has_tool_result(msg.content) {
            Err(
                ModelErrorView::InvalidRequest(
                    "unsupported ContentBlock for OpenAI Chat assistant message"@,
                ),
            )
        } else {
            Ok(
                seq![
                    ChatMessageView {
                        role: "assistant"@,
                        content: if text.len() == 0 {
                            JsonView::Null
                        } else {
                            JsonView::Text(text)
                        },
                        tool_calls: calls_of_blocks(msg.content),
                        tool_call_id: None,
                    },
                ],
            )
        },
        Role::Tool => Ok(results_of_blocks(msg.content)),
    }
}

/// Messages on the wire, one after the other, or the error of the first that has one.
pub open spec fn chat_messages(messages: Seq<MessageView>) -> Result<
    Seq<ChatMessageView>,
    ModelErrorView,
>
    decreases messages.len(),
{
    if messages.len() == 0 {
        Ok(Seq::empty())
    } else {
        match chat_messages(messages.drop_last()) {
            Err(e) => Err(e),
            Ok(out) => match chat_message(messages.last()) {
                Err(e) => Err(e),
                Ok(more) => Ok(out + more),
            },
        }
    }
}

/// A tool on the wire.
pub open spec fn chat_tool(spec: ToolSpecView) -> ChatToolView {
    ChatToolView {
        kind: "function"@,
        name: spec.name,
        description: spec.description,
        parameters: spec.input_schema,
    }
}

/// The tool choice on the wire. The API's own default goes unsaid.
pub open spec fn chat_tool_choice(choice: ToolChoiceView) -> Option<JsonView> {
    match choice {
        ToolChoiceView::Auto => None,
        ToolChoiceView::Required => Some(JsonView::Text("required"@)),
        ToolChoiceView::Tool { name } => Some(
            JsonView::Raw(
                "{\"function\":{\"name\":"@ + json::quoted(name) + "},\"type\":\"function\"}"@,
            ),
        ),
        ToolChoiceView::NoTool => Some(JsonView::Text("none"@)),
    }
}

/// The body of a request, or the error of the first message that has one.
pub open spec fn chat_request(model_id: Seq<char>, req: RequestView) -> Result<
    ChatRequestView,
    ModelErrorView,
> {
    let lead = match req.system {
        Some(s) => seq![plain_message("system"@, s)],
        None => Seq::empty(),
    };
    match chat_messages(req.messages) {
        Err(e) => Err(e),
        Ok(messages) => Ok(
            ChatRequestView {
                model: model_id,
                messages: lead + messages,
                tools: req.tools.map_values(|t: ToolSpecView| chat_tool(t)),
                tool_choice: chat_tool_choice(req.tool_choice),
                temperature: req.temperature,
                max_tokens: req.max_tokens,
                stop: req.stop,
                parallel_tool_calls: match key_map::get(
                    req.provider_metadata,
                    PARALLEL_TOOL_CALLS_KEY@,
                ) {
                    Some(JsonView::Bool(b)) => Some(b),
                    _ => None,
                },
                stream: true,
                stream_options: StreamOptions { include_usage: true },
            },
        ),
    }
}

/// The text of a message.
pub fn collect_text(blocks: &Vec<ContentBlock>) -> (r: String)
    ensures
        r@ == text_of_blocks(blocks.deep_view()),
{
    let ghost all = blocks.deep_view();
    let mut out = String::new();
    let mut i: usize = 0;
    assert(all.take(0) =~= Seq::empty());
    while i < blocks.len()
        invariant
            i <= blocks@.len(),
            all == blocks.deep_view(),
            out@ == text_of_blocks(all.take(i as int)),
        decreases blocks@.len() - i,
    {
        assert(all[i as int] == blocks@[i as int]@);
        assert(all.take(i + 1).drop_last() =~= all.take(i as int));
        match &blocks[i] {
            ContentBlock::Text { text } => {
                out.append(text.as_str());
            },
            _ => {},
        }
        i = i + 1;
    }
    assert(all.take(i as int) =~= all);
    out
}

fn plain(role: &'static str, text: String) -> (r: ChatMessage)
    ensures
        r@ == plain_message(role@, text@),
{
    let tool_calls: Vec<ChatToolCallOut> = Vec::new();
    assert(tool_calls.deep_view() =~= Seq::empty());
    ChatMessage { role, content: Json::Text(text), tool_calls, tool_call_id: None }
}

fn single(message: ChatMessage) -> (r: Vec<ChatMessage>)
    ensures
        r.deep_view() == seq![message@],
{
    let ghost m = message@;
    let mut r: Vec<ChatMessage> = Vec::new();
    r.push(message);
    assert(r.deep_view() =~= seq![m]);
    r
}

fn map_assistant(content: &Vec<ContentBlock>) -> (r: Result<ChatMessage, ModelError>)
    ensures
        match chat_message((MessageView { role: Role::Assistant, content: content.deep_view() })) {
            Ok(messages) => r is Ok && messages == seq![r->Ok_0@],
            Err(e) => model::result_view(r) == Err::<ChatMessageView, ModelErrorView>(e),
        },
{
    let ghost all = content.deep_view();
    let mut tool_calls: Vec<ChatToolCallOut> = Vec::new();
    let mut text = String::new();
    let mut i: usize = 0;
    assert(all.take(0) =~= Seq::empty());
    assert(tool_calls.deep_view() =~= Seq::empty());
    while i < content.len()
        invariant
            i <= content@.len(),
            all == content.deep_view(),
            text@ == text_of_blocks(all.take(i as int)),
            tool_calls.deep_view() == calls_of_blocks(all.take(i as int)),
            forall|j: int| 0 <= j < i ==> !((#[trigger] all[j]) is ToolResult),
        decreases content@.len() - i,
    {
        assert(all[i as int] == content@[i as int]@);
        assert(all.take(i + 1).drop_last() =~= all.take(i as int));
        let ghost calls = tool_calls.deep_view();
        match &content[i] {
            ContentBlock::Text { text: t } => {
                text.append(t.as_str());
            },
            ContentBlock::ToolUse { id, name, input } => {
                let call = ChatToolCallOut {
                    id: id.clone(),
                    kind: "function",
                    function: ChatFunctionOut { name: name.clone(), arguments: input.to_text() },
                };
                let ghost c = call@;
                tool_calls.push(call);
                assert(tool_calls.deep_view() =~= calls.push(c));
            },
            ContentBlock::Reasoning { .. } => {},
            ContentBlock::ToolResult { .. } => {
                assert(all[i as int] is ToolResult);
                return Err(
                    ModelError::InvalidRequest(
                        "unsupported ContentBlock for OpenAI Chat assistant message".to_owned(),
                    ),
                );
            },
        }
        i = i + 1;
    }
    assert(all.take(i as int) =~= all);
    let body = if text.as_str().is_empty() {
        Json::Null
    } else {
        Json::Text(text)
    };
    Ok(ChatMessage { role: "assistant", content: body, tool_calls, tool_call_id: None })
}

fn map_results(content: &Vec<ContentBlock>) -> (r: Vec<ChatMessage>)
    ensures
        r.deep_view() == results_of_blocks(content.deep_view()),
{
    let ghost all = content.deep_view();
    let mut out: Vec<ChatMessage> = Vec::new();
    let mut i: usize = 0;
    assert(all.take(0) =~= Seq::empty());
    assert(out.deep_view() =~= Seq::empty());
    while i < content.len()
        invariant
            i <= content@.len(),
            all == content.deep_view(),
            out.deep_view() == results_of_blocks(all.take(i as int)),
        decreases content@.len() - i,
    {
        assert(all[i as int] == content@[i as int]@);
        assert(all.take(i + 1).drop_last() =~= all.take(i as int));
        let ghost so_far = out.deep_view();
        match &content[i] {
            ContentBlock::ToolResult { tool_use_id, content: body, .. } => {
                let tool_calls: Vec<ChatToolCallOut> = Vec::new();
                assert(tool_calls.deep_view() =~= Seq::empty());
                let message = ChatMessage {
                    role: "tool",
                    content: Json::Text(body.body()),
                    tool_calls,
                    tool_call_id: Some(tool_use_id.clone()),
                };
                let ghost m = message@;
                out.push(message);
                assert(out.deep_view() =~= so_far.push(m));
            },
            _ => {},
        }
        i = i + 1;
    }
    assert(all.take(i as int) =~= all);
    out
}

/// A message on the wire.
pub fn map_message(msg: &Message) -> (r: Result<Vec<ChatMessage>, ModelError>)
    ensures
        model::result_view(r) == chat_message(msg@),
{
    match msg.role {
        Role::System => Ok(single(plain("system", collect_text(&msg.content)))),
        Role::User => Ok(single(plain("user", collect_text(&msg.content)))),
        Role::Assistant => match map_assistant(&msg.content) {
            Ok(message) => Ok(single(message)),
            Err(e) => Err(e),
        },
        Role::Tool => Ok(map_results(&msg.content)),
    }
}

/// A tool on the wire.
pub fn map_tool(spec: &ToolSpec) -> (r: ChatTool)
    ensures
        r@ == chat_tool(spec@),
{
    ChatTool {
        kind: "function",
        function: ChatToolFunction {
            name: spec.name.clone(),
            description: spec.description.clone(),
            parameters: spec.input_schema.clone(),
        },
    }
}

/// The tool choice on the wire.
pub fn map_tool_choice(choice: &ToolChoice) -> (r: Result<Option<Json>, ModelError>)
    ensures
        model::result_view(r) == Ok::<Option<JsonView>, ModelErrorView>(chat_tool_choice(choice@)),
{
    Ok(
        match choice {
            ToolChoice::Auto => None,
            ToolChoice::Required => Some(Json::Text("required".to_owned())),
            ToolChoice::Tool { name } => Some(
                Json::Raw(
                    concat3(
                        "{\"function\":{\"name\":",
                        quote(name.as_str()).as_str(),
                        "},\"type\":\"function\"}",
                    ),
                ),
            ),
            ToolChoice::NoTool => Some(Json::Text("none".to_owned())),
        },
    )
}

proof fn lemma_first_error_stays(messages: Seq<MessageView>, n: int)
    requires
        0 <= n <= messages.len(),
        chat_messages(messages.take(n)) is Err,
    ensures
        chat_messages(messages) == chat_messages(messages.take(n)),
    decreases messages.len(),
{
    if n == messages.len() {
        assert(messages.take(n) =~= messages);
    } else {
        assert(messages.drop_last().take(n) =~= messages.take(n));
        lemma_first_error_stays(messages.drop_last(), n);
    }
}

/// The body of a request.
pub fn build_request(model_id: &str, req: &LanguageModelRequest) -> (r: Result<
    ChatRequest,
    ModelError,
>)
    ensures
        model::result_view(r) == chat_request(model_id@, req@),
{
    let ghost v = req@;
    let ghost lead = match v.system {
        Some(s) => seq![plain_message("system"@, s)],
        None => Seq::empty(),
    };
    let mut messages: Vec<ChatMessage> = Vec::new();
    assert(messages.deep_view() =~= Seq::empty());
    match &req.system {
        Some(s) => {
            messages = single(plain("system", s.clone()));
        },
        None => {},
    }
    let mut i: usize = 0;
    assert(v.messages.take(0) =~= Seq::empty());
    assert(messages.deep_view() =~= lead + Seq::<ChatMessageView>::empty());
    while i < req.messages.len()
        invariant
            i <= req.messages@.len(),
            v == req@,
            chat_messages(v.messages.take(i as int)) is Ok,
            messages.deep_view() == lead + chat_messages(v.messages.take(i as int))->Ok_0,
        decreases req.messages@.len() - i,
    {
        assert(v.messages[i as int] == req.messages@[i as int]@);
        assert(v.messages.take(i + 1).drop_last() =~= v.messages.take(i as int));
        let ghost so_far = messages.deep_view();
        match map_message(&req.messages[i]) {
            Ok(more) => {
                let mut more = more;
                let ghost added = more.deep_view();
                messages.append(&mut more);
                assert(messages.deep_view() =~= so_far + added);
                assert(messages.deep_view() =~= lead + chat_messages(v.messages.take(i + 1))->Ok_0);
            },
            Err(e) => {
                proof {
                    assert(chat_messages(v.messages.take(i + 1)) is Err);
                    lemma_first_error_stays(v.messages, i + 1);
                }
                return Err(e);
            },
        }
        i = i + 1;
    }
    assert(v.messages.take(i as int) =~= v.messages);
    let mut tools: Vec<ChatTool> = Vec::new();
    let mut k: usize = 0;
    let ghost want = v.tools.map_values(|t: ToolSpecView| chat_tool(t));
    while k < req.tools.len()
        invariant
            k <= req.tools@.len(),
            v == req@,
            tools@.len() == k,
            want == v.tools.map_values(|t: ToolSpecView| chat_tool(t)),
            forall|j: int| 0 <= j < k ==> (#[trigger] tools@[j])@ == want[j],
        decreases req.tools@.len() - k,
    {
        assert(v.tools[k as int] == req.tools@[k as int]@);
        tools.push(map_tool(&req.tools[k]));
        k = k + 1;
    }
    assert(tools.deep_view() =~= want);
    let tool_choice = match map_tool_choice(&req.tool_choice) {
        Ok(choice) => choice,
        Err(e) => {
            return Err(e);
        },
    };
    let key = PARALLEL_TOOL_CALLS_KEY.to_owned();
    let parallel = match req.provider_metadata.get(&key) {
        Some(value) => value.as_bool(),
        None => None,
    };
    let stop = req.stop.clone();
    assert(stop.deep_view() =~= req.stop.deep_view());
    Ok(
        ChatRequest {
            model: model_id.to_owned(),
            messages,
            tools,
            tool_choice,
            temperature: req.temperature,
            max_tokens: req.max_tokens,
            stop,
            parallel_tool_calls: parallel,
            stream: true,
            stream_options: StreamOptions { include_usage: true },
        },
    )
}

/// A chunk of the stream.
#[derive(Debug, PartialEq, Eq)]
pub struct ChatStreamChunk {
    pub choices: Vec<ChatStreamChoice>,
    pub usage: Option<ChatStreamUsage>,
}

/// What a chunk holds of one choice.
#[derive(Debug, PartialEq, Eq)]
pub struct ChatStreamChoice {
    pub delta: ChatStreamDelta,
    pub finish_reason: Option<String>,
}

/// A fragment of a choice.
#[derive(Debug, PartialEq, Eq)]
pub struct ChatStreamDelta {
    pub content: Option<String>,
    pub tool_calls: Vec<ChatStreamToolCall>,
}

impl Default for ChatStreamDelta {
    fn default() -> (r: Self)
        ensures
            r.content is None,
            r.tool_calls@.len() == 0,
    {
        ChatStreamDelta { content: None, tool_calls: Vec::new() }
    }
}

/// A fragment of a tool call.
#[derive(Debug, PartialEq, Eq)]
pub struct ChatStreamToolCall {
    pub index: u32,
    pub id: Option<String>,
    pub function: Option<ChatStreamFn>,
}

/// A fragment of the function that a tool call invokes.
#[derive(Debug, PartialEq, Eq)]
pub struct ChatStreamFn {
    pub name: Option<String>,
    pub arguments: Option<String>,
}

/// Token counts.
#[derive(Debug, Clone, Copy, PartialEq, Eq, Structural)]
pub struct ChatStreamUsage {
    pub prompt_tokens: u32,
    pub completion_tokens: u32,
    pub prompt_tokens_details: Option<PromptTokensDetails>,
}

/// What is known of the input tokens.
#[derive(Debug, Clone, Copy, PartialEq, Eq, Structural)]
pub struct PromptTokensDetails {
    pub cached_tokens: u32,
}

/// The counts under the names of either API.
pub open spec fn wire_usage(u: ChatStreamUsage) -> WireUsage {
    WireUsage {
        prompt_tokens: u.prompt_tokens,
        completion_tokens: u.completion_tokens,
        input_tokens: 0,
        output_tokens: 0,
        cached_tokens: match u.prompt_tokens_details {
            Some(d) => d.cached_tokens,
            None => 0,
        },
    }
}

impl ChatStreamUsage {
    /// The counts under the names of either API.
    pub fn into_wire(self) -> (r: WireUsage)
        ensures
            r == wire_usage(self),
    {
        WireUsage {
            prompt_tokens: self.prompt_tokens,
            completion_tokens: self.completion_tokens,
            input_tokens: 0,
            output_tokens: 0,
            cached_tokens: match self.prompt_tokens_details {
                Some(d) => d.cached_tokens,
                None => 0,
            },
        }
    }
}

/// Metadata that is not for this provider makes no difference: only the opt-out counts.
pub proof fn law_foreign_metadata_is_ignored(
    model_id: Seq<char>,
    req: RequestView,
    metadata: Seq<(Seq<char>, JsonView)>,
)
    requires
        key_map::get(metadata, PARALLEL_TOOL_CALLS_KEY@) == key_map::get(
            req.provider_metadata,
            PARALLEL_TOOL_CALLS_KEY@,
        ),
    ensures
        chat_request(model_id, RequestView { provider_metadata: metadata, ..req }) == chat_request(
            model_id,
            req,
        ),
{
}

} // verus!
