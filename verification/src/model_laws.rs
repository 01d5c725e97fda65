//! What the models of values hold: all that the values do.

use crate::agent::error::{AgentError, AgentErrorView};
use crate::agent::event::{AgentEvent, AgentEventView, RunOutput};
use crate::agent::hook::{HookCtx, HookEvent, HookEventView, HookOutcome, HookOutcomeView};
use crate::agent::permission::{Decision, DecisionView};
use crate::agent::run_loop::{LoopConfig, Reply, ReplyView, Step, StepView};
use crate::agent::session::Session;
use crate::agent::tool::ToolResult;
use crate::agent::tool_run::ReadyCall;
use crate::agent::turn::{FinalToolUse, TurnOutcome};
use crate::anthropic::client::AnthropicConfig;
use crate::anthropic::models::{
    MessagesRequest,
    WireContent,
    WireContentView,
    WireMessage,
    WireTool,
};
use crate::http::Header;
use crate::json::{Json, JsonView};
use crate::language_model::error::{ModelError, ModelErrorView};
use crate::language_model::event::{LanguageModelEvent, ModelEventView};
use crate::language_model::message::{ContentBlock, ContentBlockView, Message};
use crate::language_model::request::LanguageModelRequest;
use crate::language_model::tool::{ToolChoice, ToolChoiceView, ToolSpec};
use crate::model;
use crate::openai::chat::{ChatMessage, ChatRequest, ChatTool, ChatToolCallOut};
use crate::openai::client::OpenAIConfig;
use crate::openai::responses::{
    ContentPartView,
    InputItemView,
    ResponsesContentPart,
    ResponsesInputItem,
    ResponsesRequest,
    ResponsesTool,
};
use crate::sse::SseFrame;
use vstd::prelude::*;

verus! {

/// The model of an error of a run holds all of it.
pub proof fn law_agent_error(x: AgentError)
    ensures
        match x {
            AgentError::Provider(e) => x@ == (AgentErrorView::Provider(e@)),
            AgentError::Tool { name, message } => x@ == (AgentErrorView::Tool {
                name: name@,
                message: message@,
            }),
            AgentError::InvalidToolArguments { name, message } => x@ == (AgentErrorView::InvalidToolArguments {
                name: name@,
                message: message@,
            }),
            AgentError::HookHalt(m) => x@ == (AgentErrorView::HookHalt(m@)),
            AgentError::Permission { name, message } => x@ == (AgentErrorView::Permission {
                name: name@,
                message: message@,
            }),
            AgentError::Mcp(m) => x@ == (AgentErrorView::Mcp(m@)),
            AgentError::MaxTurns(n) => x@ == (AgentErrorView::MaxTurns(n)),
            AgentError::Cancelled => x@ == (AgentErrorView::Cancelled),
            AgentError::InvalidConfig(m) => x@ == (AgentErrorView::InvalidConfig(m@)),
            AgentError::Other(m) => x@ == (AgentErrorView::Other(m@)),
        },
        x.deep_view() == x@,
{
}

/// The model of an event of a run holds all of it.
pub proof fn law_agent_event(x: AgentEvent)
    ensures
        match x {
            AgentEvent::TextDelta { turn, delta } => x@ == (AgentEventView::TextDelta {
                turn,
                delta: delta@,
            }),
            AgentEvent::ReasoningDelta { turn, delta } => x@ == (AgentEventView::ReasoningDelta {
                turn,
                delta: delta@,
            }),
            AgentEvent::ToolCallStart { turn, id, name } => x@ == (AgentEventView::ToolCallStart {
                turn,
                id: id@,
                name: name@,
            }),
            AgentEvent::ToolCallEnd { turn, id, name, arguments } => x@ == (AgentEventView::ToolCallEnd {
                turn,
                id: id@,
                name: name@,
                arguments: arguments@,
            }),
            AgentEvent::ToolResult { turn, id, name, content, is_error } => x@ == (AgentEventView::ToolResult {
                turn,
                id: id@,
                name: name@,
                content: content@,
                is_error,
            }),
            AgentEvent::TurnEnd { turn, reason, usage } => x@ == (AgentEventView::TurnEnd {
                turn,
                reason,
                usage,
            }),
            AgentEvent::Finish { turns, reason, usage } => x@ == (AgentEventView::Finish {
                turns,
                reason,
                usage,
            }),
            AgentEvent::Error { message } => x@ == (AgentEventView::Error { message: message@ }),
        },
        x.deep_view() == x@,
{
}

/// The model of a run's output holds all of it.
pub proof fn law_run_output(x: RunOutput)
    ensures
        x@.events == x.events.deep_view(),
        x@.text == x.text@,
        x@.turns == x.turns,
        x@.reason == x.reason,
        x@.usage == x.usage,
{
}

/// The model of an event for hooks holds all of it.
pub proof fn law_hook_event(x: HookEvent)
    ensures
        match x {
            HookEvent::UserPromptSubmit { input } => x@ == (HookEventView::UserPromptSubmit {
                input: input@,
            }),
            HookEvent::PreModel { request } => x@ == (HookEventView::PreModel {
                request: request@,
            }),
            HookEvent::PostModel { message, usage } => x@ == (HookEventView::PostModel {
                message: message@,
                usage,
            }),
            HookEvent::PreToolUse { tool_use_id, name, arguments } => x@ == (HookEventView::PreToolUse {
                tool_use_id: tool_use_id@,
                name: name@,
                arguments: arguments@,
            }),
            HookEvent::PostToolUse { tool_use_id, name, result } => x@ == (HookEventView::PostToolUse {
                tool_use_id: tool_use_id@,
                name: name@,
                result: result@,
            }),
            HookEvent::OnError { message } => x@ == (HookEventView::OnError { message: message@ }),
            HookEvent::OnFinish { turns, reason, usage } => x@ == (HookEventView::OnFinish {
                turns,
                reason,
                usage,
            }),
        },
        x.deep_view() == x@,
{
}

/// The model of what a hook is called with holds all of it.
pub proof fn law_hook_ctx(x: HookCtx)
    ensures
        x@.turn == x.turn,
        x@.provider_id == x.provider_id@,
        x@.model_id == x.model_id@,
        x@.session_id == x.session_id.deep_view(),
        x@.event == x.event@,
        x.deep_view() == x@,
{
}

/// The model of what a hook answers holds all of it.
pub proof fn law_hook_outcome(x: HookOutcome)
    ensures
        match x {
            HookOutcome::Continue => x@ == (HookOutcomeView::Continue),
            HookOutcome::ModifyRequest(req) => x@ == (HookOutcomeView::ModifyRequest((*req)@)),
            HookOutcome::Deny(reason) => x@ == (HookOutcomeView::Deny(reason@)),
            HookOutcome::Halt(reason) => x@ == (HookOutcomeView::Halt(reason@)),
        },
        x.deep_view() == x@,
{
}

/// The model of a verdict holds all of it.
pub proof fn law_decision(x: Decision)
    ensures
        match x {
            Decision::Allow => x@ == (DecisionView::Allow),
            Decision::Deny(reason) => x@ == (DecisionView::Deny(reason@)),
            Decision::AskUser { prompt } => x@ == (DecisionView::AskUser { prompt: prompt@ }),
        },
        x.deep_view() == x@,
{
}

/// The model of a configuration holds all of it.
pub proof fn law_loop_config(x: LoopConfig)
    ensures
        x@.provider_id == x.provider_id@,
        x@.model_id == x.model_id@,
        x@.tool_specs == x.tool_specs.deep_view(),
        x@.system == x.system.deep_view(),
        x@.tool_choice == x.tool_choice@,
        x@.temperature == x.temperature,
        x@.max_tokens == x.max_tokens,
        x@.max_turns == x.max_turns,
        x@.parallel_tool_calls == x.parallel_tool_calls,
        x@.hooks == x.hooks as nat,
        x@.can_ask == x.can_ask,
        x@.has_policy == x.has_policy,
        x@.has_stop == x.has_stop,
        x@.initial_input == x.initial_input@,
{
}

/// The model of what a run asks for holds all of it.
pub proof fn law_step(x: Step)
    ensures
        match x {
            Step::CallHook { index, ctx } => x@ == (StepView::CallHook {
                index: index as int,
                ctx: ctx@,
            }),
            Step::CheckCancel => x@ == (StepView::CheckCancel),
            Step::OpenModel { request } => x@ == (StepView::OpenModel { request: request@ }),
            Step::PollModel => x@ == (StepView::PollModel),
            Step::Emit { event } => x@ == (StepView::Emit { event: event@ }),
            Step::CheckPermission { name, arguments } => x@ == (StepView::CheckPermission {
                name: name@,
                arguments: arguments@,
            }),
            Step::AskUser { prompt } => x@ == (StepView::AskUser { prompt: prompt@ }),
            Step::RunTool { call } => x@ == (StepView::RunTool { call: call@ }),
            Step::SpawnTools { calls } => x@ == (StepView::SpawnTools { calls: calls.deep_view() }),
            Step::JoinTool => x@ == (StepView::JoinTool),
            Step::EvaluateStop { state } => x@ == (StepView::EvaluateStop { state }),
            Step::Done { result } => x@ == (StepView::Done { result: model::result_view(result) }),
            Step::Unexpected => x@ == (StepView::Unexpected),
        },
{
}

/// The model of what a run is told holds all of it.
pub proof fn law_reply(x: Reply)
    ensures
        match x {
            Reply::Begin => x@ == (ReplyView::Begin),
            Reply::Hook(o) => x@ == (ReplyView::Hook(o@)),
            Reply::CancelState(b) => x@ == (ReplyView::CancelState(b)),
            Reply::Opened(r) => x@ == (ReplyView::Opened(model::result_view(r))),
            Reply::Cancelled => x@ == (ReplyView::Cancelled),
            Reply::Event(e) => x@ == (ReplyView::Event(model::result_view(e))),
            Reply::StreamEnd => x@ == (ReplyView::StreamEnd),
            Reply::Sent(b) => x@ == (ReplyView::Sent(b)),
            Reply::Permission(d) => x@ == (ReplyView::Permission(d@)),
            Reply::ToolReturned(r) => x@ == (ReplyView::ToolReturned(model::result_view(r))),
            Reply::Joined { index, result } => x@ == (ReplyView::Joined {
                index: index as int,
                result: model::result_view(result),
            }),
            Reply::JoinFailed { cancelled, message } => x@ == (ReplyView::JoinFailed {
                cancelled,
                message: message@,
            }),
            Reply::AllJoined => x@ == (ReplyView::AllJoined),
            Reply::Stop(b) => x@ == (ReplyView::Stop(b)),
        },
{
}

/// The model of a conversation holds all of it.
pub proof fn law_session(x: Session)
    ensures
        x@.id == x.id@,
        x@.messages == x.messages.deep_view(),
        x@.metadata == x.metadata@,
        x.deep_view() == x@,
{
}

/// The model of a result of a tool holds all of it.
pub proof fn law_tool_result(x: ToolResult)
    ensures
        x@.content == x.content@,
        x@.is_error == x.is_error,
        x.deep_view() == x@,
{
}

/// The model of a call that is to run holds all of it.
pub proof fn law_ready_call(x: ReadyCall)
    ensures
        x@.index == x.index as int,
        x@.name == x.name@,
        x@.arguments == x.arguments@,
        x.deep_view() == x@,
{
}

/// The model of a tool call holds all of it.
pub proof fn law_final_tool_use(x: FinalToolUse)
    ensures
        x@.id == x.id@,
        x@.name == x.name@,
        x@.arguments == x.arguments@,
        x.deep_view() == x@,
{
}

/// The model of what a turn comes to holds all of it.
pub proof fn law_turn_outcome(x: TurnOutcome)
    ensures
        x@.assistant_message == x.assistant_message@,
        x@.finish_reason == x.finish_reason,
        x@.usage == x.usage,
        x@.tool_uses == x.tool_uses.deep_view(),
        x.deep_view() == x@,
{
}

/// The model of how the Messages API is reached holds all of it.
pub proof fn law_anthropic_config(x: AnthropicConfig)
    ensures
        x@.api_key == x.api_key@,
        x@.base_url == x.base_url@,
        x@.timeout == x.timeout,
{
}

/// The model of a request to the Messages API holds all of it.
pub proof fn law_messages_request(x: MessagesRequest)
    ensures
        x@.model == x.model@,
        x@.messages == x.messages.deep_view(),
        x@.system == x.system.deep_view(),
        x@.tools == x.tools.deep_view(),
        x@.tool_choice == x.tool_choice.deep_view(),
        x@.temperature == x.temperature,
        x@.max_tokens == x.max_tokens,
        x@.stop_sequences == x.stop_sequences.deep_view(),
        x@.stream == x.stream,
        x.deep_view() == x@,
{
}

/// The model of a message to the Messages API holds all of it.
pub proof fn law_wire_message(x: WireMessage)
    ensures
        x@.role == x.role@,
        x@.content == x.content.deep_view(),
        x.deep_view() == x@,
{
}

/// The model of a block of a message to the Messages API holds all of it.
pub proof fn law_wire_content(x: WireContent)
    ensures
        match x {
            WireContent::Text { text, cache_control } => x@ == (WireContentView::Text {
                text: text@,
                cache_control: cache_control.deep_view(),
            }),
            WireContent::ToolUse { id, name, input } => x@ == (WireContentView::ToolUse {
                id: id@,
                name: name@,
                input: input@,
            }),
            WireContent::ToolResult { tool_use_id, content, is_error } => x@ == (WireContentView::ToolResult {
                tool_use_id: tool_use_id@,
                content: content@,
                is_error,
            }),
            WireContent::Thinking { thinking, signature } => x@ == (WireContentView::Thinking {
                thinking: thinking@,
                signature: signature.deep_view(),
            }),
        },
        x.deep_view() == x@,
{
}

/// The model of a tool for the Messages API holds all of it.
pub proof fn law_wire_tool(x: WireTool)
    ensures
        x@.name == x.name@,
        x@.description == x.description@,
        x@.input_schema == x.input_schema@,
        x.deep_view() == x@,
{
}

/// The model of a header holds all of it.
pub proof fn law_header(x: Header)
    ensures
        x@.name == x.name@,
        x@.value == x.value@,
        x.deep_view() == x@,
{
}

/// The model of a JSON value holds all of it.
pub proof fn law_json(x: Json)
    ensures
        match x {
            Json::Null => x@ == (JsonView::Null),
            Json::Bool(b) => x@ == (JsonView::Bool(b)),
            Json::Text(s) => x@ == (JsonView::Text(s@)),
            Json::Raw(s) => x@ == (JsonView::Raw(s@)),
        },
        x.deep_view() == x@,
{
}

/// The model of a model's error holds all of it.
pub proof fn law_model_error(x: ModelError)
    ensures
        match x {
            ModelError::InvalidRequest(m) => x@ == (ModelErrorView::InvalidRequest(m@)),
            ModelError::Auth(m) => x@ == (ModelErrorView::Auth(m@)),
            ModelError::RateLimit { message, retry_after_ms } => x@ == (ModelErrorView::RateLimit {
                message: message@,
                retry_after_ms,
            }),
            ModelError::ContextLengthExceeded(m) => x@ == (
                ModelErrorView::ContextLengthExceeded(m@)
            ),
            ModelError::Provider(m) => x@ == (ModelErrorView::Provider(m@)),
            ModelError::Transport(m) => x@ == (ModelErrorView::Transport(m@)),
            ModelError::Cancelled => x@ == (ModelErrorView::Cancelled),
            ModelError::Other(m) => x@ == (ModelErrorView::Other(m@)),
        },
        x.deep_view() == x@,
{
}

/// The model of a model's event holds all of it.
pub proof fn law_language_model_event(x: LanguageModelEvent)
    ensures
        match x {
            LanguageModelEvent::TextDelta { delta } => x@ == (ModelEventView::TextDelta {
                delta: delta@,
            }),
            LanguageModelEvent::ReasoningDelta { delta } => x@ == (ModelEventView::ReasoningDelta {
                delta: delta@,
            }),
            LanguageModelEvent::ReasoningSignature { signature } => x@ == (ModelEventView::ReasoningSignature {
                signature: signature@,
            }),
            LanguageModelEvent::ToolCallStart { id, name } => x@ == (ModelEventView::ToolCallStart {
                id: id@,
                name: name@,
            }),
            LanguageModelEvent::ToolCallDelta { id, arguments_delta } => x@ == (ModelEventView::ToolCallDelta {
                id: id@,
                arguments_delta: arguments_delta@,
            }),
            LanguageModelEvent::ToolCallEnd { id, arguments } => x@ == (ModelEventView::ToolCallEnd {
                id: id@,
                arguments: arguments.deep_view(),
            }),
            LanguageModelEvent::Finish { reason, usage } => x@ == (ModelEventView::Finish {
                reason,
                usage,
            }),
            LanguageModelEvent::Error { message } => x@ == (ModelEventView::Error {
                message: message@,
            }),
        },
        x.deep_view() == x@,
{
}

/// The model of a block holds all of it.
pub proof fn law_content_block(x: ContentBlock)
    ensures
        match x {
            ContentBlock::Text { text } => x@ == (ContentBlockView::Text { text: text@ }),
            ContentBlock::ToolUse { id, name, input } => x@ == (ContentBlockView::ToolUse {
                id: id@,
                name: name@,
                input: input@,
            }),
            ContentBlock::ToolResult { tool_use_id, content, is_error } => x@ == (ContentBlockView::ToolResult {
                tool_use_id: tool_use_id@,
                content: content@,
                is_error,
            }),
            ContentBlock::Reasoning { text, signature } => x@ == (ContentBlockView::Reasoning {
                text: text@,
                signature: signature.deep_view(),
            }),
        },
        x.deep_view() == x@,
{
}

/// The model of a message holds all of it.
pub proof fn law_message(x: Message)
    ensures
        x@.role == x.role,
        x@.content == x.content.deep_view(),
        x.deep_view() == x@,
{
}

/// The model of a request holds all of it.
pub proof fn law_language_model_request(x: LanguageModelRequest)
    ensures
        x@.messages == x.messages.deep_view(),
        x@.system == x.system.deep_view(),
        x@.tools == x.tools.deep_view(),
        x@.tool_choice == x.tool_choice@,
        x@.temperature == x.temperature,
        x@.max_tokens == x.max_tokens,
        x@.stop == x.stop.deep_view(),
        x@.provider_metadata == x.provider_metadata@,
        x.deep_view() == x@,
{
}

/// The model of a tool holds all of it.
pub proof fn law_tool_spec(x: ToolSpec)
    ensures
        x@.name == x.name@,
        x@.description == x.description@,
        x@.input_schema == x.input_schema@,
        x.deep_view() == x@,
{
}

/// The model of a choice of tools holds all of it.
pub proof fn law_tool_choice(x: ToolChoice)
    ensures
        match x {
            ToolChoice::Auto => x@ == (ToolChoiceView::Auto),
            ToolChoice::Required => x@ == (ToolChoiceView::Required),
            ToolChoice::Tool { name } => x@ == (ToolChoiceView::Tool { name: name@ }),
            ToolChoice::NoTool => x@ == (ToolChoiceView::NoTool),
        },
        x.deep_view() == x@,
{
}

/// The model of a request to Chat Completions holds all of it.
pub proof fn law_chat_request(x: ChatRequest)
    ensures
        x@.model == x.model@,
        x@.messages == x.messages.deep_view(),
        x@.tools == x.tools.deep_view(),
        x@.tool_choice == x.tool_choice.deep_view(),
        x@.temperature == x.temperature,
        x@.max_tokens == x.max_tokens,
        x@.stop == x.stop.deep_view(),
        x@.parallel_tool_calls == x.parallel_tool_calls,
        x@.stream == x.stream,
        x@.stream_options == x.stream_options,
        x.deep_view() == x@,
{
}

/// The model of a message to Chat Completions holds all of it.
pub proof fn law_chat_message(x: ChatMessage)
    ensures
        x@.role == x.role@,
        x@.content == x.content@,
        x@.tool_calls == x.tool_calls.deep_view(),
        x@.tool_call_id == x.tool_call_id.deep_view(),
        x.deep_view() == x@,
{
}

/// The model of a tool call to Chat Completions holds all of it.
pub proof fn law_chat_tool_call_out(x: ChatToolCallOut)
    ensures
        x@.id == x.id@,
        x@.kind == x.kind@,
        x@.name == x.function.name@,
        x@.arguments == x.function.arguments@,
        x.deep_view() == x@,
{
}

/// The model of a tool for Chat Completions holds all of it.
pub proof fn law_chat_tool(x: ChatTool)
    ensures
        x@.kind == x.kind@,
        x@.name == x.function.name@,
        x@.description == x.function.description@,
        x@.parameters == x.function.parameters@,
        x.deep_view() == x@,
{
}

/// The model of how either API is reached holds all of it.
pub proof fn law_openai_config(x: OpenAIConfig)
    ensures
        x@.api_key == x.api_key@,
        x@.base_url == x.base_url@,
        x@.timeout == x.timeout,
        x@.organization == x.organization.deep_view(),
{
}

/// The model of a request to Responses holds all of it.
pub proof fn law_responses_request(x: ResponsesRequest)
    ensures
        x@.model == x.model@,
        x@.input == x.input.deep_view(),
        x@.instructions == x.instructions.deep_view(),
        x@.tools == x.tools.deep_view(),
        x@.tool_choice == x.tool_choice.deep_view(),
        x@.temperature == x.temperature,
        x@.max_output_tokens == x.max_output_tokens,
        x@.stream == x.stream,
        x@.store == x.store,
        x.deep_view() == x@,
{
}

/// The model of an item for Responses holds all of it.
pub proof fn law_responses_input_item(x: ResponsesInputItem)
    ensures
        match x {
            ResponsesInputItem::Message { role, content } => x@ == (InputItemView::Message {
                role: role@,
                content: content.deep_view(),
            }),
            ResponsesInputItem::FunctionCall { call_id, name, arguments } => x@ == (InputItemView::FunctionCall {
                call_id: call_id@,
                name: name@,
                arguments: arguments@,
            }),
            ResponsesInputItem::FunctionCallOutput { call_id, output } => x@ == (InputItemView::FunctionCallOutput {
                call_id: call_id@,
                output: output@,
            }),
        },
        x.deep_view() == x@,
{
}

/// The model of a part of an item for Responses holds all of it.
pub proof fn law_responses_content_part(x: ResponsesContentPart)
    ensures
        match x {
            ResponsesContentPart::InputText { text } => x@ == (ContentPartView::InputText {
                text: text@,
            }),
            ResponsesContentPart::OutputText { text } => x@ == (ContentPartView::OutputText {
                text: text@,
            }),
        },
        x.deep_view() == x@,
{
}

/// The model of a tool for Responses holds all of it.
pub proof fn law_responses_tool(x: ResponsesTool)
    ensures
        x@.kind == x.kind@,
        x@.name == x.name@,
        x@.description == x.description@,
        x@.parameters == x.parameters@,
        x.deep_view() == x@,
{
}

/// The model of a frame holds all of it.
pub proof fn law_sse_frame(x: SseFrame)
    ensures
        x@.event == x.event@,
        x@.data == x.data@,
        x.deep_view() == x@,
{
}

} // verus!
