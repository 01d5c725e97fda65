//! The Responses API: from a request to the body that it takes, and what it streams.

use crate::json;
use crate::json::{quote, Json, JsonView};
use crate::language_model::error::{ModelError, ModelErrorView};
use crate::language_model::message::{ContentBlock, ContentBlockView, Message, MessageView, Role};
use crate::language_model::request::{LanguageModelRequest, RequestView, Temperature};
use crate::language_model::tool::{ToolChoice, ToolChoiceView, ToolSpec, ToolSpecView};
use crate::model;
use crate::openai::chat;
use crate::openai::chat::collect_text;
use crate::text::{concat3, same_text};
use vstd::prelude::*;
use vstd::string::*;

verus! {

/// The body of a request.
#[derive(Debug, PartialEq, Eq)]
pub struct ResponsesRequest {
    pub model: String,
    pub input: Vec<ResponsesInputItem>,
    pub instructions: Option<String>,
    pub tools: Vec<ResponsesTool>,
    pub tool_choice: Option<Json>,
    pub temperature: Option<Temperature>,
    pub max_output_tokens: Option<u32>,
    pub stream: bool,
    /// Whether the provider keeps the response.
    pub store: bool,
}

/// Model of a request's body.
#[verifier::ext_equal]
pub struct ResponsesRequestView {
    pub model: Seq<char>,
    pub input: Seq<InputItemView>,
    pub instructions: Option<Seq<char>>,
    pub tools: Seq<ResponsesToolView>,
    pub tool_choice: Option<JsonView>,
    pub temperature: Option<Temperature>,
    pub max_output_tokens: Option<u32>,
    pub stream: bool,
    pub store: bool,
}

impl View for ResponsesRequest {
    type V = ResponsesRequestView;

    open spec fn view(&self) -> ResponsesRequestView {
        ResponsesRequestView {
            model: self.model@,
            input: self.input.deep_view(),
            instructions: self.instructions.deep_view(),
            tools: self.tools.deep_view(),
            tool_choice: self.tool_choice.deep_view(),
            temperature: self.temperature,
            max_output_tokens: self.max_output_tokens,
            stream: self.stream,
            store: self.store,
        }
    }
}

impl DeepView for ResponsesRequest {
    type V = ResponsesRequestView;

    open spec fn deep_view(&self) -> ResponsesRequestView {
        self@
    }
}

/// An item of the input.
#[derive(Debug, PartialEq, Eq)]
pub enum ResponsesInputItem {
    /// A message.
    Message { role: &'static str, content: Vec<ResponsesContentPart> },
    /// A tool call of the assistant.
    FunctionCall { call_id: String, name: String, arguments: String },
    /// The result of a tool call.
    FunctionCallOutput { call_id: String, output: String },
}

/// Model of an item of the input.
#[verifier::ext_equal]
pub enum InputItemView {
    Message { role: Seq<char>, content: Seq<ContentPartView> },
    FunctionCall { call_id: Seq<char>, name: Seq<char>, arguments: Seq<char> },
    FunctionCallOutput { call_id: Seq<char>, output: Seq<char> },
}

impl View for ResponsesInputItem {
    type V = InputItemView;

    open spec fn view(&self) -> InputItemView {
        match *self {
            ResponsesInputItem::Message { role, content } => InputItemView::Message {
                role: role@,
                content: content.deep_view(),
            },
            ResponsesInputItem::FunctionCall { call_id, name, arguments } => {
                InputItemView::FunctionCall {
                    call_id: call_id@,
                    name: name@,
                    arguments: arguments@,
                }
            },
            ResponsesInputItem::FunctionCallOutput { call_id, output } => {
                InputItemView::FunctionCallOutput { call_id: call_id@, output: output@ }
            },
        }
    }
}

impl DeepView for ResponsesInputItem {
    type V = InputItemView;

    open spec fn deep_view(&self) -> InputItemView {
        self@
    }
}

/// A part of a message.
#[derive(Debug, PartialEq, Eq)]
pub enum ResponsesContentPart {
    /// Text of the user or the system.
    InputText { text: String },
    /// Text of the assistant.
    OutputText { text: String },
}

/// Model of a part of a message.
#[verifier::ext_equal]
pub enum ContentPartView {
    InputText { text: Seq<char> },
    OutputText { text: Seq<char> },
}

impl View for ResponsesContentPart {
    type V = ContentPartView;

    open spec fn view(&self) -> ContentPartView {
        match *self {
            ResponsesContentPart::InputText { text } => ContentPartView::InputText { text: text@ },
            ResponsesContentPart::OutputText { text } => ContentPartView::OutputText { text: text@ },
        }
    }
}

impl DeepView for ResponsesContentPart {
    type V = ContentPartView;

    open spec fn deep_view(&self) -> ContentPartView {
        self@
    }
}

/// A tool.
#[derive(Debug, PartialEq, Eq)]
pub struct ResponsesTool {
    pub kind: &'static str,
    pub name: String,
    pub description: String,
    pub parameters: Json,
}

/// Model of a tool.
#[verifier::ext_equal]
pub struct ResponsesToolView {
    pub kind: Seq<char>,
    pub name: Seq<char>,
    pub description: Seq<char>,
    pub parameters: JsonView,
}

impl View for ResponsesTool {
    type V = ResponsesToolView;

    open spec fn view(&self) -> ResponsesToolView {
        ResponsesToolView {
            kind: self.kind@,
            name: self.name@,
            description: self.description@,
            parameters: self.parameters@,
        }
    }
}

impl DeepView for ResponsesTool {
    type V = ResponsesToolView;

    open spec fn deep_view(&self) -> ResponsesToolView {
        self@
    }
}

/// A message of the user or the system.
pub open spec fn input_message(role: Seq<char>, text: Seq<char>) -> InputItemView {
    InputItemView::Message { role, content: seq![ContentPartView::InputText { text }] }
}

/// The items so far, and the text parts that are not yet in one.
#[verifier::ext_equal]
pub struct AssistantItems {
    pub out: Seq<InputItemView>,
    pub parts: Seq<ContentPartView>,
}

/// The text parts become a message, if there are any.
pub open spec fn with_parts_closed(a: AssistantItems) -> Seq<InputItemView> {
    if a.parts.len() == 0 {
        a.out
    } else {
        a.out.push(InputItemView::Message { role: "assistant"@, content: a.parts })
    }
}

/// The items after one more block of the assistant: text is gathered into one message up to the
/// next tool call, and reasoning is left out.
pub open spec fn with_assistant_block(a: AssistantItems, b: ContentBlockView) -> AssistantItems {
    match b {
        ContentBlockView::Text { text } => AssistantItems {
            out: a.out,
            parts: a.parts.push(ContentPartView::OutputText { text }),
        },
        ContentBlockView::ToolUse { id, name, input } => AssistantItems {
            out: with_parts_closed(a).push(
                InputItemView::FunctionCall { call_id: id, name, arguments: json::json_text(input) },
            ),
            parts: Seq::empty(),
        },
        _ => a,
    }
}

/// The items of the blocks of an assistant message.
pub open spec fn assistant_items(content: Seq<ContentBlockView>) -> AssistantItems
    decreases content.len(),
{
    if content.len() == 0 {
        AssistantItems { out: Seq::empty(), parts: Seq::empty() }
    } else {
        with_assistant_block(assistant_items(content.drop_last()), content.last())
    }
}

/// The items that tell of the tool results of a message.
pub open spec fn result_items(content: Seq<ContentBlockView>) -> Seq<InputItemView>
    decreases content.len(),
{
    if content.len() == 0 {
        Seq::empty()
    } else {
        match content.last() {
            ContentBlockView::ToolResult { tool_use_id, content: body, is_error } => {
                result_items(content.drop_last()).push(
                    InputItemView::FunctionCallOutput {
                        call_id: tool_use_id,
                        output: json::json_body(body),
                    },
                )
            },
            _ => result_items(content.drop_last()),
        }
    }
}

/// A message on the wire. A message of the assistant cannot hold tool results.
pub open spec fn input_items(msg: MessageView) -> Result<Seq<InputItemView>, ModelErrorView> {
    match msg.role {
        Role::System => Ok(seq![input_message("system"@, chat::text_of_blocks(msg.content))]),
        Role::User => Ok(seq![input_message("user"@, chat::text_of_blocks(msg.content))]),
        Role::Assistant => if chat::has_tool_result(msg.content) {
            Err(
                ModelErrorView::InvalidRequest(
                    "unsupported ContentBlock for OpenAI Responses assistant message"@,
                ),
            )
        } else {
            Ok(with_parts_closed(assistant_items(msg.content)))
        },
        Role::Tool => Ok(result_items(msg.content)),
    }
}

/// The item that tells of one tool result.
pub open spec fn result_item(block: ContentBlockView) -> InputItemView {
    InputItemView::FunctionCallOutput {
        call_id: block->tool_use_id,
        output: json::json_body(block->ToolResult_content),
    }
}

/// Every tool result of a message of the tools is told, in order, under the identifier of its
/// call.
pub proof fn law_results_reach_the_model(content: Seq<ContentBlockView>)
    requires
        forall|i: int| 0 <= i < content.len() ==> (#[trigger] content[i]) is ToolResult,
    ensures
        input_items(MessageView { role: Role::Tool, content }) == Ok::<_, ModelErrorView>(
            content.map_values(|b: ContentBlockView| result_item(b)),
        ),
    decreases content.len(),
{
    if content.len() > 0 {
        let front = content.drop_last();
        assert forall|i: int| 0 <= i < front.len() implies (#[trigger] front[i]) is ToolResult by {
            assert(front[i] == content[i]);
        }
        law_results_reach_the_model(front);
        assert(content.last() is ToolResult);
    }
    assert(result_items(content) =~= content.map_values(|b: ContentBlockView| result_item(b)));
}

/// Messages on the wire, one after the other, or the error of the first that has one.
pub open spec fn all_input_items(messages: Seq<MessageView>) -> Result<
    Seq<InputItemView>,
    ModelErrorView,
>
    decreases messages.len(),
{
    if messages.len() == 0 {
        Ok(Seq::empty())
    } else {
        match all_input_items(messages.drop_last()) {
            Err(e) => Err(e),
            Ok(out) => match input_items(messages.last()) {
                Err(e) => Err(e),
                Ok(more) => Ok(out + more),
            },
        }
    }
}

/// A tool on the wire.
pub open spec fn responses_tool(spec: ToolSpecView) -> ResponsesToolView {
    ResponsesToolView {
        kind: "function"@,
        name: spec.name,
        description: spec.description,
        parameters: spec.input_schema,
    }
}

/// The tool choice on the wire. The API's own default goes unsaid.
pub open spec fn responses_tool_choice(choice: ToolChoiceView) -> Option<JsonView> {
    match choice {
        ToolChoiceView::Auto => None,
        ToolChoiceView::Required => Some(JsonView::Text("required"@)),
        ToolChoiceView::Tool { name } => Some(
            JsonView::Raw("{\"name\":"@ + json::quoted(name) + ",\"type\":\"function\"}"@),
        ),
        ToolChoiceView::NoTool => Some(JsonView::Text("none"@)),
    }
}

/// The body of a request, or the error of the first message that has one. The provider is asked not
/// to keep the response.
pub open spec fn responses_request(model_id: Seq<char>, req: RequestView) -> Result<
    ResponsesRequestView,
    ModelErrorView,
> {
    match all_input_items(req.messages) {
        Err(e) => Err(e),
        Ok(input) => Ok(
            ResponsesRequestView {
                model: model_id,
                input,
                instructions: req.system,
                tools: req.tools.map_values(|t: ToolSpecView| responses_tool(t)),
                tool_choice: responses_tool_choice(req.tool_choice),
                temperature: req.temperature,
                max_output_tokens: req.max_tokens,
                stream: true,
                store: false,
            },
        ),
    }
}

fn single(item: ResponsesInputItem) -> (r: Vec<ResponsesInputItem>)
    ensures
        r.deep_view() == seq![item@],
{
    let ghost i = item@;
    let mut r: Vec<ResponsesInputItem> = Vec::new();
    r.push(item);
    assert(r.deep_view() =~= seq![i]);
    r
}

fn text_input(role: &'static str, text: String) -> (r: ResponsesInputItem)
    ensures
        r@ == input_message(role@, text@),
{
    let ghost t = text@;
    let mut content: Vec<ResponsesContentPart> = Vec::new();
    content.push(ResponsesContentPart::InputText { text });
    assert(content.deep_view() =~= seq![ContentPartView::InputText { text: t }]);
    ResponsesInputItem::Message { role, content }
}

fn close_parts(out: &mut Vec<ResponsesInputItem>, parts: &mut Vec<ResponsesContentPart>)
    ensures
        final(out).deep_view() == with_parts_closed(
            (AssistantItems { out: old(out).deep_view(), parts: old(parts).deep_view() }),
        ),
        final(parts).deep_view() == Seq::<ContentPartView>::empty(),
{
    let ghost so_far = out.deep_view();
    let ghost gathered = parts.deep_view();
    let mut content: Vec<ResponsesContentPart> = Vec::new();
    std::mem::swap(&mut content, parts);
    assert(parts.deep_view() =~= Seq::<ContentPartView>::empty());
    if content.len() > 0 {
        out.push(ResponsesInputItem::Message { role: "assistant", content });
        assert(out.deep_view() =~= so_far.push(
            InputItemView::Message { role: "assistant"@, content: gathered },
        ));
    }
}

fn map_assistant(content: &Vec<ContentBlock>) -> (r: Result<Vec<ResponsesInputItem>, ModelError>)
    ensures
        model::result_view(r) == input_items(
            (MessageView { role: Role::Assistant, content: content.deep_view() }),
        ),
{
    let ghost all = content.deep_view();
    let mut out: Vec<ResponsesInputItem> = Vec::new();
    let mut parts: Vec<ResponsesContentPart> = Vec::new();
    let mut i: usize = 0;
    assert(all.take(0) =~= Seq::empty());
    assert(out.deep_view() =~= Seq::empty());
    assert(parts.deep_view() =~= Seq::empty());
    while i < content.len()
        invariant
            i <= content@.len(),
            all == content.deep_view(),
            out.deep_view() == assistant_items(all.take(i as int)).out,
            parts.deep_view() == assistant_items(all.take(i as int)).parts,
            forall|j: int| 0 <= j < i ==> !((#[trigger] all[j]) is ToolResult),
        decreases content@.len() - i,
    {
        assert(all[i as int] == content@[i as int]@);
        assert(all.take(i + 1).drop_last() =~= all.take(i as int));
        let ghost before = AssistantItems { out: out.deep_view(), parts: parts.deep_view() };
        match &content[i] {
            ContentBlock::Text { text } => {
                parts.push(ResponsesContentPart::OutputText { text: text.clone() });
                assert(parts.deep_view() =~= before.parts.push(
                    ContentPartView::OutputText { text: text@ },
                ));
            },
            ContentBlock::ToolUse { id, name, input } => {
                close_parts(&mut out, &mut parts);
                let ghost closed = out.deep_view();
                let item = ResponsesInputItem::FunctionCall {
                    call_id: id.clone(),
                    name: name.clone(),
                    arguments: input.to_text(),
                };
                let ghost x = item@;
                out.push(item);
                assert(out.deep_view() =~= closed.push(x));
            },
            ContentBlock::Reasoning { .. } => {},
            ContentBlock::ToolResult { .. } => {
                assert(all[i as int] is ToolResult);
                return Err(
                    ModelError::InvalidRequest(
                        "unsupported ContentBlock for OpenAI Responses assistant message".to_owned(),
                    ),
                );
            },
        }
        i = i + 1;
    }
    assert(all.take(i as int) =~= all);
    close_parts(&mut out, &mut parts);
    Ok(out)
}

fn map_results(content: &Vec<ContentBlock>) -> (r: Vec<ResponsesInputItem>)
    ensures
        r.deep_view() == result_items(content.deep_view()),
{
    let ghost all = content.deep_view();
    let mut out: Vec<ResponsesInputItem> = Vec::new();
    let mut i: usize = 0;
    assert(all.take(0) =~= Seq::empty());
    assert(out.deep_view() =~= Seq::empty());
    while i < content.len()
        invariant
            i <= content@.len(),
            all == content.deep_view(),
            out.deep_view() == result_items(all.take(i as int)),
        decreases content@.len() - i,
    {
        assert(all[i as int] == content@[i as int]@);
        assert(all.take(i + 1).drop_last() =~= all.take(i as int));
        let ghost so_far = out.deep_view();
        match &content[i] {
            ContentBlock::ToolResult { tool_use_id, content: body, .. } => {
                let item = ResponsesInputItem::FunctionCallOutput {
                    call_id: tool_use_id.clone(),
                    output: body.body(),
                };
                let ghost x = item@;
                out.push(item);
                assert(out.deep_view() =~= so_far.push(x));
            },
            _ => {},
        }
        i = i + 1;
    }
    assert(all.take(i as int) =~= all);
    out
}

/// A message on the wire.
pub fn map_message(msg: &Message) -> (r: Result<Vec<ResponsesInputItem>, ModelError>)
    ensures
        model::result_view(r) == input_items(msg@),
{
    match msg.role {
        Role::System => Ok(single(text_input("system", collect_text(&msg.content)))),
        Role::User => Ok(single(text_input("user", collect_text(&msg.content)))),
        Role::Assistant => map_assistant(&msg.content),
        Role::Tool => Ok(map_results(&msg.content)),
    }
}

/// A tool on the wire.
pub fn map_tool(spec: &ToolSpec) -> (r: ResponsesTool)
    ensures
        r@ == responses_tool(spec@),
{
    ResponsesTool {
        kind: "function",
        name: spec.name.clone(),
        description: spec.description.clone(),
        parameters: spec.input_schema.clone(),
    }
}

/// The tool choice on the wire.
pub fn map_tool_choice(choice: &ToolChoice) -> (r: Result<Option<Json>, ModelError>)
    ensures
        model::result_view(r) == Ok::<Option<JsonView>, ModelErrorView>(
            responses_tool_choice(choice@),
        ),
{
    Ok(
        match choice {
            ToolChoice::Auto => None,
            ToolChoice::Required => Some(Json::Text("required".to_owned())),
            ToolChoice::Tool { name } => Some(
                Json::Raw(
                    concat3(
                        "{\"name\":",
                        quote(name.as_str()).as_str(),
                        ",\"type\":\"function\"}",
                    ),
                ),
            ),
            ToolChoice::NoTool => Some(Json::Text("none".to_owned())),
        },
    )
}

proof fn lemma_first_error_stays(messages: Seq<MessageView>, n: int)
    requires
        0 <= n <= messages.len(),
        all_input_items(messages.take(n)) is Err,
    ensures
        all_input_items(messages) == all_input_items(messages.take(n)),
    decreases messages.len(),
{
    if n == messages.len() {
        assert(messages.take(n) =~= messages);
    } else {
        assert(messages.drop_last().take(n) =~= messages.take(n));
        lemma_first_error_stays(messages.drop_last(), n);
    }
}

/// The body of a request.
pub fn build_request(model_id: &str, req: &LanguageModelRequest) -> (r: Result<
    ResponsesRequest,
    ModelError,
>)
    ensures
        model::result_view(r) == responses_request(model_id@, req@),
{
    let ghost v = req@;
    let mut input: Vec<ResponsesInputItem> = Vec::new();
    let mut i: usize = 0;
    assert(v.messages.take(0) =~= Seq::empty());
    assert(input.deep_view() =~= Seq::<InputItemView>::empty());
    while i < req.messages.len()
        invariant
            i <= req.messages@.len(),
            v == req@,
            all_input_items(v.messages.take(i as int)) is Ok,
            input.deep_view() == all_input_items(v.messages.take(i as int))->Ok_0,
        decreases req.messages@.len() - i,
    {
        assert(v.messages[i as int] == req.messages@[i as int]@);
        assert(v.messages.take(i + 1).drop_last() =~= v.messages.take(i as int));
        let ghost so_far = input.deep_view();
        match map_message(&req.messages[i]) {
            Ok(more) => {
                let mut more = more;
                let ghost added = more.deep_view();
                input.append(&mut more);
                assert(input.deep_view() =~= so_far + added);
            },
            Err(e) => {
                proof {
                    assert(all_input_items(v.messages.take(i + 1)) is Err);
                    lemma_first_error_stays(v.messages, i + 1);
                }
                return Err(e);
            },
        }
        i = i + 1;
    }
    assert(v.messages.take(i as int) =~= v.messages);
    let mut tools: Vec<ResponsesTool> = Vec::new();
    let mut k: usize = 0;
    let ghost want = v.tools.map_values(|t: ToolSpecView| responses_tool(t));
    while k < req.tools.len()
        invariant
            k <= req.tools@.len(),
            v == req@,
            tools@.len() == k,
            want == v.tools.map_values(|t: ToolSpecView| responses_tool(t)),
            forall|j: int| 0 <= j < k ==> (#[trigger] tools@[j])@ == want[j],
        decreases req.tools@.len() - k,
    {
        assert(v.tools[k as int] == req.tools@[k as int]@);
        tools.push(map_tool(&req.tools[k]));
        k = k + 1;
    }
    assert(tools.deep_view() =~= want);
    let tool_choice = match map_tool_choice(&req.tool_choice) {
        Ok(choice) => choice,
        Err(e) => {
            return Err(e);
        },
    };
    Ok(
        ResponsesRequest {
            model: model_id.to_owned(),
            input,
            instructions: req.system.clone(),
            tools,
            tool_choice,
            temperature: req.temperature,
            max_output_tokens: req.max_tokens,
            stream: true,
            store: false,
        },
    )
}

/// An event of the stream.
#[derive(Debug, PartialEq, Eq)]
pub enum ResponsesEvent {
    OutputItemAdded(OutputItemAdded),
    OutputTextDelta(OutputTextDelta),
    FunctionCallArgsDelta(FunctionCallArgsDelta),
    OutputItemDone(OutputItemDone),
    ReasoningSummaryDelta(ReasoningSummaryDelta),
    Completed(ResponseCompleted),
    Failed(ResponseFailed),
    /// An event of a kind that is not known.
    Ignored,
}

/// An item of the output has begun.
#[derive(Debug, PartialEq, Eq)]
pub struct OutputItemAdded {
    pub item: ResponsesOutputItem,
}

/// An item of the output.
#[derive(Debug, PartialEq, Eq)]
pub struct ResponsesOutputItem {
    pub kind: String,
    pub id: Option<String>,
    pub call_id: Option<String>,
    pub name: Option<String>,
    /// The whole arguments of a tool call that is done, as JSON text.
    pub arguments: Option<String>,
}

/// A fragment of text.
#[derive(Debug, PartialEq, Eq)]
pub struct OutputTextDelta {
    pub delta: String,
}

/// A fragment of the arguments of a tool call.
#[derive(Debug, PartialEq, Eq)]
pub struct FunctionCallArgsDelta {
    pub item_id: String,
    pub delta: String,
}

/// An item of the output is done.
#[derive(Debug, PartialEq, Eq)]
pub struct OutputItemDone {
    pub item: ResponsesOutputItem,
}

/// A fragment of the summary of the reasoning.
#[derive(Debug, PartialEq, Eq)]
pub struct ReasoningSummaryDelta {
    pub delta: String,
}

/// The response is complete.
#[derive(Debug, PartialEq, Eq)]
pub struct ResponseCompleted {
    pub response: CompletedResponse,
}

/// A response that is complete.
#[derive(Debug, PartialEq, Eq)]
pub struct CompletedResponse {
    pub usage: Option<ResponsesUsage>,
    pub incomplete_details: Option<IncompleteDetails>,
    pub status: Option<String>,
}

/// Why a response is not whole.
#[derive(Debug, PartialEq, Eq)]
pub struct IncompleteDetails {
    pub reason: String,
}

/// Token counts.
#[derive(Debug, Clone, Copy, PartialEq, Eq, Structural)]
pub struct ResponsesUsage {
    pub input_tokens: u32,
    pub output_tokens: u32,
    pub input_tokens_details: Option<InputTokensDetails>,
}

/// What is known of the input tokens.
#[derive(Debug, Clone, Copy, PartialEq, Eq, Structural)]
pub struct InputTokensDetails {
    pub cached_tokens: u32,
}

/// The response failed.
#[derive(Debug, PartialEq, Eq)]
pub struct ResponseFailed {
    pub response: FailedResponse,
}

/// A response that failed.
#[derive(Debug, PartialEq, Eq)]
pub struct FailedResponse {
    pub error: ResponsesError,
}

/// An error that the provider reports.
#[derive(Debug, PartialEq, Eq)]
pub struct ResponsesError {
    pub message: String,
    pub code: Option<String>,
}

/// What an event's name says of its payload.
#[derive(Debug, Clone, Copy, PartialEq, Eq, Structural)]
pub enum ResponsesEventKind {
    OutputItemAdded,
    OutputTextDelta,
    FunctionCallArgsDelta,
    OutputItemDone,
    ReasoningSummaryDelta,
    Completed,
    Failed,
    Ignored,
}

/// The kind of the events of a name.
pub open spec fn kind_of(event: Seq<char>) -> ResponsesEventKind {
    if event == "response.output_item.added"@ {
        ResponsesEventKind::OutputItemAdded
    } else if event == "response.output_text.delta"@ {
        ResponsesEventKind::OutputTextDelta
    } else if event == "response.function_call_arguments.delta"@ {
        ResponsesEventKind::FunctionCallArgsDelta
    } else if event == "response.output_item.done"@ {
        ResponsesEventKind::OutputItemDone
    } else if event == "response.reasoning_summary_text.delta"@ {
        ResponsesEventKind::ReasoningSummaryDelta
    } else if event == "response.completed"@ {
        ResponsesEventKind::Completed
    } else if event == "response.failed"@ {
        ResponsesEventKind::Failed
    } else {
        ResponsesEventKind::Ignored
    }
}

/// The kind of the events of a name. Names that are not known are no error, so that the API can
/// grow.
pub fn event_kind(event: &str) -> (r: ResponsesEventKind)
    ensures
        r == kind_of(event@),
{
    if same_text(event, "response.output_item.added") {
        ResponsesEventKind::OutputItemAdded
    } else if same_text(event, "response.output_text.delta") {
        ResponsesEventKind::OutputTextDelta
    } else if same_text(event, "response.function_call_arguments.delta") {
        ResponsesEventKind::FunctionCallArgsDelta
    } else if same_text(event, "response.output_item.done") {
        ResponsesEventKind::OutputItemDone
    } else if same_text(event, "response.reasoning_summary_text.delta") {
        ResponsesEventKind::ReasoningSummaryDelta
    } else if same_text(event, "response.completed") {
        ResponsesEventKind::Completed
    } else if same_text(event, "response.failed") {
        ResponsesEventKind::Failed
    } else {
        ResponsesEventKind::Ignored
    }
}

/// Metadata makes no difference: none of it is for this provider.
pub proof fn law_metadata_is_ignored(
    model_id: Seq<char>,
    req: RequestView,
    metadata: Seq<(Seq<char>, JsonView)>,
)
    ensures
        responses_request(model_id, RequestView { provider_metadata: metadata, ..req })
            == responses_request(model_id, req),
{
}

} // verus!
