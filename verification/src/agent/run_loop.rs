//! The agent loop, as a machine.
//!
//! The machine decides what happens next and says so in a [`Step`]: call a hook, call the model,
//! wait for its stream, tell the caller, run a tool, and so on. Whoever drives it performs the
//! step and hands back what came of it in a [`Reply`]. The machine itself does no I/O.
//!
//! A run goes through turns. In each, the hooks may rewrite the request, the model streams its
//! answer, the hooks see the answer, and the answer is appended to the session. Where the model
//! called tools, each call passes the hooks and the permission policy, the calls that may run are
//! run, their results go back into the session in the order of the calls, and the next turn
//! begins, unless the stop condition or the limit of turns ends the run. Without a policy every call
//! may run, and without a stop condition only the limit ends a run that calls tools.

use crate::agent::error::{map_tool_err, AgentError, AgentErrorView};
use crate::agent::event::{add_usage, error_event, AgentEvent, AgentEventView};
use crate::agent::hook::{
    HookChain, HookChainView, HookCtx, HookCtxView, HookEvent, HookEventView, HookFlow,
    HookFlowView, HookOutcome, HookOutcomeView,
};
use crate::agent::permission::{Decision, DecisionView};
use crate::agent::session::{Session, SessionView};
use crate::agent::stop::LoopState;
use crate::agent::tool::{ToolResult, ToolResultView};
use crate::agent::tool_run::{
    gate_after_hooks, gate_after_policy, preflight, settle_verdict, HookGate, HookGateView,
    PolicyGate, PolicyGateView, ReadyCall, ReadyCallView, ToolRun, ToolRunView,
};
use crate::agent::turn::{FinalToolUse, ToolUseView, TurnOutcome, TurnOutcomeView, TurnState, TurnView};
use crate::agent::{error, event, hook, session, tool_run, turn};
use crate::json::{Json, JsonView};
use crate::key_map::KeyMap;
use crate::language_model::error::{ModelError, ModelErrorView};
use crate::language_model::event::{FinishReason, LanguageModelEvent, ModelEventView, Usage};
use crate::language_model::message::{Message, MessageView, Role};
use crate::language_model::request::{LanguageModelRequest, RequestView, Temperature};
use crate::language_model::tool::{ToolChoice, ToolChoiceView, ToolSpec, ToolSpecView};
use crate::model;
use crate::text::concat2;
use vstd::prelude::*;
use vstd::string::*;

verus! {

/// What a run works with, apart from the conversation.
#[derive(Debug, PartialEq, Eq)]
pub struct LoopConfig {
    /// The provider of the model.
    pub provider_id: String,
    /// The model.
    pub model_id: String,
    /// The registered tools.
    pub tool_specs: Vec<ToolSpec>,
    /// The system prompt.
    pub system: Option<String>,
    /// How the model is to pick tools.
    pub tool_choice: ToolChoice,
    /// The sampling temperature.
    pub temperature: Option<Temperature>,
    /// The upper bound on output tokens per turn.
    pub max_tokens: Option<u32>,
    /// The limit of turns.
    pub max_turns: u32,
    /// Whether the tools of one turn run at the same time.
    pub parallel_tool_calls: bool,
    /// The number of hooks.
    pub hooks: usize,
    /// Whether the user can be asked.
    pub can_ask: bool,
    /// Whether there is a permission policy; every call may run where there is none.
    pub has_policy: bool,
    /// Whether there is a stop condition; it never stops a run where there is none.
    pub has_stop: bool,
    /// The user's input, empty where there is none.
    pub initial_input: String,
}

/// Model of what a run works with.
#[verifier::ext_equal]
pub struct LoopConfigView {
    pub provider_id: Seq<char>,
    pub model_id: Seq<char>,
    pub tool_specs: Seq<ToolSpecView>,
    pub system: Option<Seq<char>>,
    pub tool_choice: ToolChoiceView,
    pub temperature: Option<Temperature>,
    pub max_tokens: Option<u32>,
    pub max_turns: u32,
    pub parallel_tool_calls: bool,
    pub hooks: nat,
    pub can_ask: bool,
    pub has_policy: bool,
    pub has_stop: bool,
    pub initial_input: Seq<char>,
}

impl View for LoopConfig {
    type V = LoopConfigView;

    open spec fn view(&self) -> LoopConfigView {
        LoopConfigView {
            provider_id: self.provider_id@,
            model_id: self.model_id@,
            tool_specs: self.tool_specs.deep_view(),
            system: self.system.deep_view(),
            tool_choice: self.tool_choice@,
            temperature: self.temperature,
            max_tokens: self.max_tokens,
            max_turns: self.max_turns,
            parallel_tool_calls: self.parallel_tool_calls,
            hooks: self.hooks as nat,
            can_ask: self.can_ask,
            has_policy: self.has_policy,
            has_stop: self.has_stop,
            initial_input: self.initial_input@,
        }
    }
}

/// How far a run has come.
#[derive(Debug, PartialEq, Eq)]
struct Progress {
    config: LoopConfig,
    session: Session,
    total_usage: Usage,
    turn: u32,
}

/// Model of how far a run has come: the conversation, what it cost, and the number of turns that
/// are complete.
#[verifier::ext_equal]
pub struct ProgressView {
    pub config: LoopConfigView,
    pub session: SessionView,
    pub total_usage: Usage,
    pub turn: u32,
}

impl View for Progress {
    type V = ProgressView;

    closed spec fn view(&self) -> ProgressView {
        ProgressView {
            config: self.config@,
            session: self.session@,
            total_usage: self.total_usage,
            turn: self.turn,
        }
    }
}

/// What follows once an event has gone through the hooks.
#[derive(Debug, PartialEq, Eq)]
enum Then {
    /// The first turn.
    FirstTurn,
    /// The model call.
    CallModel,
    /// The end of the turn.
    EndTurn(TurnOutcome),
    /// The end of the run.
    Finish(FinishReason),
    /// The permission policy, for the call at hand.
    Permit(ToolRun),
    /// The next result.
    Report(ToolRun, usize),
}

/// Model of what follows.
#[verifier::ext_equal]
pub enum ThenView {
    FirstTurn,
    CallModel,
    EndTurn(TurnOutcomeView),
    Finish(FinishReason),
    Permit(ToolRunView),
    Report(ToolRunView, int),
}

impl View for Then {
    type V = ThenView;

    closed spec fn view(&self) -> ThenView {
        match *self {
            Then::FirstTurn => ThenView::FirstTurn,
            Then::CallModel => ThenView::CallModel,
            Then::EndTurn(o) => ThenView::EndTurn(o@),
            Then::Finish(reason) => ThenView::Finish(reason),
            Then::Permit(run) => ThenView::Permit(run@),
            Then::Report(run, at) => ThenView::Report(run@, at as int),
        }
    }
}

/// What the run waits for.
#[derive(Debug, PartialEq, Eq)]
enum Phase {
    /// To be started.
    Start,
    /// A hook's answer.
    Hooks(HookChain, Then),
    /// Whether the run was cancelled.
    CancelCheck,
    /// The model's stream to open.
    Opening,
    /// The next event of the stream.
    Streaming(TurnState),
    /// The caller to take an event that the stream gave.
    Forwarding(TurnState),
    /// The caller to take the end of a call; the others and the turn's outcome are to follow.
    EndingCalls(Vec<AgentEvent>, Result<TurnOutcome, AgentError>),
    /// The caller to take the end of the turn.
    EndingTurn(FinishReason, Vec<FinalToolUse>),
    /// The verdict of the permission policy.
    Permission(ToolRun),
    /// The verdict of the user.
    Asking(ToolRun),
    /// The result of one tool.
    RunningOne(ToolRun, usize),
    /// The result of any of the tools that run at the same time.
    Joining(ToolRun),
    /// The caller to take a result.
    Reporting(ToolRun, usize),
    /// The stop condition.
    StopCheck(FinishReason),
    /// The caller to take the end of the run.
    Finishing,
    /// A hook to take note of the error, with the turn in which it came.
    ErrorHooks(AgentError, u32, usize),
    /// The caller to take the error.
    Failing(AgentError),
    /// Nothing more.
    Over,
}

/// Model of what the run waits for.
#[verifier::ext_equal]
pub enum PhaseView {
    Start,
    Hooks(HookChainView, ThenView),
    CancelCheck,
    Opening,
    Streaming(TurnView),
    Forwarding(TurnView),
    EndingCalls(Seq<AgentEventView>, Result<TurnOutcomeView, AgentErrorView>),
    EndingTurn(FinishReason, Seq<ToolUseView>),
    Permission(ToolRunView),
    Asking(ToolRunView),
    RunningOne(ToolRunView, int),
    Joining(ToolRunView),
    Reporting(ToolRunView, int),
    StopCheck(FinishReason),
    Finishing,
    ErrorHooks(AgentErrorView, u32, nat),
    Failing(AgentErrorView),
    Over,
}

impl View for Phase {
    type V = PhaseView;

    closed spec fn view(&self) -> PhaseView {
        match *self {
            Phase::Start => PhaseView::Start,
            Phase::Hooks(chain, then) => PhaseView::Hooks(chain@, then@),
            Phase::CancelCheck => PhaseView::CancelCheck,
            Phase::Opening => PhaseView::Opening,
            Phase::Streaming(t) => PhaseView::Streaming(t@),
            Phase::Forwarding(t) => PhaseView::Forwarding(t@),
            Phase::EndingCalls(rest, result) => PhaseView::EndingCalls(
                rest.deep_view(),
                model::result_view(result),
            ),
            Phase::EndingTurn(reason, uses) => PhaseView::EndingTurn(reason, uses.deep_view()),
            Phase::Permission(run) => PhaseView::Permission(run@),
            Phase::Asking(run) => PhaseView::Asking(run@),
            Phase::RunningOne(run, at) => PhaseView::RunningOne(run@, at as int),
            Phase::Joining(run) => PhaseView::Joining(run@),
            Phase::Reporting(run, at) => PhaseView::Reporting(run@, at as int),
            Phase::StopCheck(reason) => PhaseView::StopCheck(reason),
            Phase::Finishing => PhaseView::Finishing,
            Phase::ErrorHooks(e, turn, called) => PhaseView::ErrorHooks(e@, turn, called as nat),
            Phase::Failing(e) => PhaseView::Failing(e@),
            Phase::Over => PhaseView::Over,
        }
    }
}

/// What is to be done next.
#[derive(Debug, PartialEq, Eq)]
pub enum Step {
    /// Call a hook; answer with [`Reply::Hook`].
    CallHook {
        /// Which hook, counted from zero.
        index: usize,
        /// What to call it with.
        ctx: HookCtx,
    },
    /// See whether the run was cancelled; answer with [`Reply::CancelState`].
    CheckCancel,
    /// Call the model; answer with [`Reply::Opened`], or [`Reply::Cancelled`] if that came first.
    OpenModel {
        /// The request.
        request: LanguageModelRequest,
    },
    /// Wait for the stream; answer with [`Reply::Event`], [`Reply::StreamEnd`], or
    /// [`Reply::Cancelled`] if that came first.
    PollModel,
    /// Tell the caller; answer with [`Reply::Sent`].
    Emit {
        /// The event.
        event: AgentEvent,
    },
    /// Ask the permission policy; answer with [`Reply::Permission`].
    CheckPermission {
        /// The tool's name.
        name: String,
        /// The arguments.
        arguments: Json,
    },
    /// Ask the user; answer with [`Reply::Permission`].
    AskUser {
        /// The question.
        prompt: String,
    },
    /// Run a tool; answer with [`Reply::ToolReturned`], or [`Reply::Cancelled`] if that came
    /// first.
    RunTool {
        /// The call.
        call: ReadyCall,
    },
    /// Start these tools at the same time, and wait as for [`Step::JoinTool`].
    SpawnTools {
        /// The calls.
        calls: Vec<ReadyCall>,
    },
    /// Wait for any of the tools that were started; answer with [`Reply::Joined`],
    /// [`Reply::JoinFailed`], [`Reply::AllJoined`], or [`Reply::Cancelled`] if that came first.
    JoinTool,
    /// Ask the stop condition; answer with [`Reply::Stop`].
    EvaluateStop {
        /// What the condition gets to see.
        state: LoopState,
    },
    /// The run is over.
    Done {
        /// How it ended.
        result: Result<(), AgentError>,
    },
    /// The reply did not answer the step at hand. Nothing has changed.
    Unexpected,
}

/// Model of what is to be done next.
#[verifier::ext_equal]
pub enum StepView {
    CallHook { index: int, ctx: HookCtxView },
    CheckCancel,
    OpenModel { request: RequestView },
    PollModel,
    Emit { event: AgentEventView },
    CheckPermission { name: Seq<char>, arguments: JsonView },
    AskUser { prompt: Seq<char> },
    RunTool { call: ReadyCallView },
    SpawnTools { calls: Seq<ReadyCallView> },
    JoinTool,
    EvaluateStop { state: LoopState },
    Done { result: Result<(), AgentErrorView> },
    Unexpected,
}

impl View for Step {
    type V = StepView;

    open spec fn view(&self) -> StepView {
        match *self {
            Step::CallHook { index, ctx } => StepView::CallHook { index: index as int, ctx: ctx@ },
            Step::CheckCancel => StepView::CheckCancel,
            Step::OpenModel { request } => StepView::OpenModel { request: request@ },
            Step::PollModel => StepView::PollModel,
            Step::Emit { event } => StepView::Emit { event: event@ },
            Step::CheckPermission { name, arguments } => StepView::CheckPermission {
                name: name@,
                arguments: arguments@,
            },
            Step::AskUser { prompt } => StepView::AskUser { prompt: prompt@ },
            Step::RunTool { call } => StepView::RunTool { call: call@ },
            Step::SpawnTools { calls } => StepView::SpawnTools { calls: calls.deep_view() },
            Step::JoinTool => StepView::JoinTool,
            Step::EvaluateStop { state } => StepView::EvaluateStop { state },
            Step::Done { result } => StepView::Done { result: model::result_view(result) },
            Step::Unexpected => StepView::Unexpected,
        }
    }
}

/// What came of a step.
#[derive(Debug, PartialEq, Eq)]
pub enum Reply {
    /// The run is to start.
    Begin,
    /// A hook answered.
    Hook(HookOutcome),
    /// Whether the run was cancelled.
    CancelState(bool),
    /// The model's stream is open, or could not be opened.
    Opened(Result<(), ModelError>),
    /// The run was cancelled before the step was over.
    Cancelled,
    /// The stream gave an event, or failed.
    Event(Result<LanguageModelEvent, ModelError>),
    /// The stream is over.
    StreamEnd,
    /// Whether the caller took the event: a caller that is gone does not.
    Sent(bool),
    /// The verdict of the permission policy, or of the user.
    Permission(Decision),
    /// The tool returned.
    ToolReturned(Result<ToolResult, AgentError>),
    /// One of the tools that run at the same time returned.
    Joined {
        /// The place of the call among the calls of the turn.
        index: usize,
        /// What it returned.
        result: Result<ToolResult, AgentError>,
    },
    /// One of the tools that run at the same time neither returned nor failed.
    JoinFailed {
        /// Whether it was cancelled; it panicked otherwise.
        cancelled: bool,
        /// What is known of it.
        message: String,
    },
    /// All the tools that were started have returned.
    AllJoined,
    /// Whether the run is to stop.
    Stop(bool),
}

/// Model of what came of a step.
#[verifier::ext_equal]
pub enum ReplyView {
    Begin,
    Hook(HookOutcomeView),
    CancelState(bool),
    Opened(Result<(), ModelErrorView>),
    Cancelled,
    Event(Result<ModelEventView, ModelErrorView>),
    StreamEnd,
    Sent(bool),
    Permission(DecisionView),
    ToolReturned(Result<ToolResultView, AgentErrorView>),
    Joined { index: int, result: Result<ToolResultView, AgentErrorView> },
    JoinFailed { cancelled: bool, message: Seq<char> },
    AllJoined,
    Stop(bool),
}

impl View for Reply {
    type V = ReplyView;

    open spec fn view(&self) -> ReplyView {
        match *self {
            Reply::Begin => ReplyView::Begin,
            Reply::Hook(o) => ReplyView::Hook(o@),
            Reply::CancelState(b) => ReplyView::CancelState(b),
            Reply::Opened(r) => ReplyView::Opened(model::result_view(r)),
            Reply::Cancelled => ReplyView::Cancelled,
            Reply::Event(e) => ReplyView::Event(model::result_view(e)),
            Reply::StreamEnd => ReplyView::StreamEnd,
            Reply::Sent(b) => ReplyView::Sent(b),
            Reply::Permission(d) => ReplyView::Permission(d@),
            Reply::ToolReturned(r) => ReplyView::ToolReturned(model::result_view(r)),
            Reply::Joined { index, result } => ReplyView::Joined {
                index: index as int,
                result: model::result_view(result),
            },
            Reply::JoinFailed { cancelled, message } => ReplyView::JoinFailed {
                cancelled,
                message: message@,
            },
            Reply::AllJoined => ReplyView::AllJoined,
            Reply::Stop(b) => ReplyView::Stop(b),
        }
    }
}

/// Model of a run.
#[verifier::ext_equal]
pub struct LoopView {
    pub progress: ProgressView,
    pub phase: PhaseView,
}

/// The agent loop.
#[derive(Debug, PartialEq, Eq)]
pub struct AgentLoop {
    progress: Progress,
    phase: Phase,
}

impl View for AgentLoop {
    type V = LoopView;

    closed spec fn view(&self) -> LoopView {
        LoopView { progress: self.progress@, phase: self.phase@ }
    }
}

/// Where a run stands and what is to be done next.
pub type Move = (LoopView, StepView);

/// The run waits in this phase while this step is done.
pub open spec fn wait(p: ProgressView, phase: PhaseView, step: StepView) -> Move {
    (LoopView { progress: p, phase }, step)
}

/// What a hook is called with.
pub open spec fn hook_ctx(p: ProgressView, turn: u32, event: HookEventView) -> HookCtxView {
    HookCtxView {
        turn,
        provider_id: p.config.provider_id,
        model_id: p.config.model_id,
        session_id: session::named_id(p.session),
        event,
    }
}

/// What the hooks are told of an error that came in a turn.
pub open spec fn error_ctx(p: ProgressView, turn: u32, e: AgentErrorView) -> HookCtxView {
    hook_ctx(p, turn, HookEventView::OnError { message: error::agent_error_text(e) })
}

/// The run fails in a turn: every hook is told, then the caller.
pub open spec fn fail_at(p: ProgressView, turn: u32, e: AgentErrorView) -> Move {
    if p.config.hooks == 0 {
        tell_error(p, e)
    } else {
        wait(
            p,
            PhaseView::ErrorHooks(e, turn, 0),
            StepView::CallHook { index: 0, ctx: error_ctx(p, turn, e) },
        )
    }
}

/// The run fails in the turn at hand.
pub open spec fn fail(p: ProgressView, e: AgentErrorView) -> Move {
    fail_at(p, p.turn, e)
}

/// The caller is told of an error.
pub open spec fn tell_error(p: ProgressView, e: AgentErrorView) -> Move {
    wait(p, PhaseView::Failing(e), StepView::Emit { event: event::error_event_of(e) })
}

/// A turn begins, unless the run was cancelled.
pub open spec fn begin_turn(p: ProgressView) -> Move {
    wait(p, PhaseView::CancelCheck, StepView::CheckCancel)
}

/// The request of a turn, before the hooks.
pub open spec fn turn_request(p: ProgressView) -> RequestView {
    RequestView {
        messages: p.session.messages,
        system: p.config.system,
        tools: p.config.tool_specs,
        tool_choice: p.config.tool_choice,
        temperature: p.config.temperature,
        max_tokens: p.config.max_tokens,
        stop: Seq::empty(),
        provider_metadata: Seq::empty(),
    }
}

/// The turn is over: its cost is added up, its message joins the session, the caller is told.
pub open spec fn end_turn(p: ProgressView, o: TurnOutcomeView) -> Move {
    wait(
        ProgressView {
            total_usage: event::usage_sum(p.total_usage, o.usage),
            session: session::pushed(p.session, o.assistant_message),
            ..p
        },
        PhaseView::EndingTurn(o.finish_reason, o.tool_uses),
        StepView::Emit {
            event: AgentEventView::TurnEnd {
                turn: p.turn,
                reason: o.finish_reason,
                usage: o.usage,
            },
        },
    )
}

/// The caller is told that the run is over.
pub open spec fn tell_finish(p: ProgressView, reason: FinishReason) -> Move {
    wait(
        p,
        PhaseView::Finishing,
        StepView::Emit {
            event: AgentEventView::Finish { turns: p.turn, reason, usage: p.total_usage },
        },
    )
}

/// The call at hand: the first that is not past the gates.
pub open spec fn at_hand(run: ToolRunView) -> ToolUseView {
    run.calls[run.results.len() as int]
}

/// What the stop condition gets to see.
pub open spec fn loop_state(p: ProgressView, run: ToolRunView) -> LoopState {
    LoopState {
        turns: p.turn,
        last_reason: run.reason,
        last_tool_call_count: run.calls.len() as u32,
    }
}

/// The results go into the session as a message of the tools.
pub open spec fn answered(p: ProgressView, run: ToolRunView) -> ProgressView {
    ProgressView {
        session: session::pushed(
            p.session,
            MessageView {
                role: Role::Tool,
                content: tool_run::result_blocks(run, run.results.len() as int),
            },
        ),
        ..p
    }
}

/// Nothing stops the run: the next turn begins, unless the limit of turns is reached.
pub open spec fn go_on(p: ProgressView) -> Move {
    if p.turn >= p.config.max_turns {
        fail(p, AgentErrorView::MaxTurns(p.config.max_turns))
    } else {
        begin_turn(p)
    }
}

/// The tools are done: their results go into the session, and the stop condition is asked, if there
/// is one.
pub open spec fn close_tools(p: ProgressView, run: ToolRunView) -> Move {
    if p.config.has_stop {
        wait(
            answered(p, run),
            PhaseView::StopCheck(run.reason),
            StepView::EvaluateStop { state: loop_state(p, run) },
        )
    } else {
        go_on(answered(p, run))
    }
}

/// The caller is told of the first result at or behind `from`; after the last, the tools are done.
pub open spec fn report(p: ProgressView, run: ToolRunView, from: int) -> Move {
    let i = tool_run::next_call(run.results, from, true);
    if i < run.results.len() {
        wait(
            p,
            PhaseView::Reporting(run, i),
            StepView::Emit {
                event: tool_run::result_event(run.turn, run.calls[i], run.results[i]->0),
            },
        )
    } else {
        close_tools(p, run)
    }
}

/// No hook objected to the event.
pub open spec fn proceed(p: ProgressView, then: ThenView, request: Option<RequestView>) -> Move {
    match then {
        ThenView::FirstTurn => begin_turn(p),
        ThenView::CallModel => wait(
            p,
            PhaseView::Opening,
            StepView::OpenModel { request: request->0 },
        ),
        ThenView::EndTurn(o) => end_turn(p, o),
        ThenView::Finish(reason) => tell_finish(p, reason),
        ThenView::Permit(run) => wait(
            p,
            PhaseView::Permission(run),
            StepView::CheckPermission {
                name: at_hand(run).name,
                arguments: at_hand(run).arguments,
            },
        ),
        ThenView::Report(run, at) => report(p, run, at + 1),
    }
}

/// An event goes to the hooks, if there are any.
pub open spec fn dispatch(p: ProgressView, turn: u32, event: HookEventView, then: ThenView) -> Move {
    if p.config.hooks == 0 {
        proceed(p, then, hook::carried(event))
    } else {
        wait(
            p,
            PhaseView::Hooks(HookChainView { turn, event, called: 0 }, then),
            StepView::CallHook { index: 0, ctx: hook_ctx(p, turn, event) },
        )
    }
}

/// Tools run one by one: the first at or behind `from` that has no result yet; after the last, the
/// results are told.
pub open spec fn run_next(p: ProgressView, run: ToolRunView, from: int) -> Move {
    let i = tool_run::next_call(run.results, from, false);
    if i < run.results.len() {
        wait(
            p,
            PhaseView::RunningOne(run, i),
            StepView::RunTool { call: tool_run::ready_call(i, run.calls[i]) },
        )
    } else {
        report(p, run, 0)
    }
}

/// The calls that may run are run, at the same time where that is wanted and there are several.
pub open spec fn start_tools(p: ProgressView, run: ToolRunView) -> Move {
    let ready = tool_run::ready_list(run, run.results.len() as int);
    if p.config.parallel_tool_calls && ready.len() > 1 {
        wait(p, PhaseView::Joining(run), StepView::SpawnTools { calls: ready })
    } else {
        run_next(p, run, 0)
    }
}

/// The next call comes to the gates; after the last, the tools are started. Where there is neither
/// a hook nor a policy there are no gates, and every call may run.
pub open spec fn gate_next(p: ProgressView, run: ToolRunView) -> Move {
    if run.results.len() >= run.calls.len() {
        start_tools(p, run)
    } else if p.config.hooks == 0 && !p.config.has_policy {
        start_tools(p, tool_run::with_rest_allowed(run))
    } else {
        dispatch(p, run.turn, tool_run::pre_tool_event(at_hand(run)), ThenView::Permit(run))
    }
}

/// The event has gone through the hooks. A call that they let pass comes to the permission policy;
/// without one it is allowed.
pub open spec fn after_hooks(p: ProgressView, then: ThenView, flow: HookFlowView) -> Move {
    match then {
        ThenView::Permit(run) => match tool_run::hook_gate(at_hand(run).name, flow) {
            HookGateView::CheckPermission => if p.config.has_policy {
                proceed(p, then, None)
            } else {
                let r = tool_run::verdict(at_hand(run).name, DecisionView::Allow);
                gate_next(p, tool_run::with_gated(run, r))
            },
            HookGateView::Refused(r) => gate_next(p, tool_run::with_gated(run, Some(r))),
            HookGateView::Halted(e) => fail_at(p, run.turn, e),
        },
        ThenView::Finish(_) => proceed(p, then, None),
        ThenView::Report(run, _) => match flow {
            HookFlowView::Halt(reason) => fail_at(p, run.turn, AgentErrorView::HookHalt(reason)),
            _ => proceed(p, then, None),
        },
        _ => match flow {
            HookFlowView::Continue(request) => proceed(p, then, request),
            HookFlowView::Deny(reason) => fail(p, AgentErrorView::HookHalt(reason)),
            HookFlowView::Halt(reason) => fail(p, AgentErrorView::HookHalt(reason)),
        },
    }
}

/// The end of the run goes to the hooks.
pub open spec fn finish(p: ProgressView, reason: FinishReason) -> Move {
    dispatch(
        p,
        p.turn,
        HookEventView::OnFinish { turns: p.turn, reason, usage: p.total_usage },
        ThenView::Finish(reason),
    )
}

/// The caller is told of the end of each call; then the turn's outcome counts.
pub open spec fn end_calls(
    p: ProgressView,
    rest: Seq<AgentEventView>,
    result: Result<TurnOutcomeView, AgentErrorView>,
) -> Move {
    if rest.len() > 0 {
        wait(
            p,
            PhaseView::EndingCalls(rest.drop_first(), result),
            StepView::Emit { event: rest[0] },
        )
    } else {
        match result {
            Ok(o) => dispatch(
                p,
                p.turn,
                HookEventView::PostModel { message: o.assistant_message, usage: o.usage },
                ThenView::EndTurn(o),
            ),
            Err(e) => fail(p, e),
        }
    }
}

/// The caller has taken the end of the turn: the run is over where no tool was called, and the
/// tools are looked at otherwise.
pub open spec fn after_turn(
    p: ProgressView,
    reason: FinishReason,
    uses: Seq<ToolUseView>,
) -> Move {
    let q = ProgressView { turn: event::capped_sum(p.turn, 1), ..p };
    if uses.len() == 0 {
        finish(q, reason)
    } else {
        let turn = (q.turn - 1) as u32;
        match tool_run::preflight_error(uses, q.config.tool_specs) {
            Some(e) => fail_at(q, turn, e),
            None => gate_next(q, tool_run::new_tool_run(turn, reason, uses)),
        }
    }
}

/// The next move of a run, given what came of the step at hand.
pub open spec fn next(s: LoopView, reply: ReplyView) -> Move {
    let p = s.progress;
    match (s.phase, reply) {
        (PhaseView::Start, ReplyView::Begin) => if p.config.initial_input.len() == 0 {
            begin_turn(p)
        } else {
            dispatch(
                p,
                p.turn,
                HookEventView::UserPromptSubmit { input: p.config.initial_input },
                ThenView::FirstTurn,
            )
        },
        (PhaseView::Hooks(chain, then), ReplyView::Hook(outcome)) => match hook::chain_next(
            chain,
            p.config.hooks,
            outcome,
        ) {
            Ok(chain) => wait(
                p,
                PhaseView::Hooks(chain, then),
                StepView::CallHook {
                    index: chain.called as int,
                    ctx: hook_ctx(p, chain.turn, chain.event),
                },
            ),
            Err(flow) => after_hooks(p, then, flow),
        },
        (PhaseView::CancelCheck, ReplyView::CancelState(cancelled)) => if cancelled {
            fail(p, AgentErrorView::Cancelled)
        } else {
            dispatch(
                p,
                p.turn,
                HookEventView::PreModel { request: turn_request(p) },
                ThenView::CallModel,
            )
        },
        (PhaseView::Opening, ReplyView::Cancelled) => fail(p, AgentErrorView::Cancelled),
        (PhaseView::Opening, ReplyView::Opened(Err(e))) => fail(p, AgentErrorView::Provider(e)),
        (PhaseView::Opening, ReplyView::Opened(Ok(_))) => wait(
            p,
            PhaseView::Streaming(turn::new_turn(p.turn)),
            StepView::PollModel,
        ),
        (PhaseView::Streaming(_), ReplyView::Cancelled) => fail(p, AgentErrorView::Cancelled),
        (PhaseView::Streaming(t), ReplyView::Event(e)) => match turn::turn_step(t, e) {
            Err(e) => fail(p, e),
            Ok((t, None)) => wait(p, PhaseView::Streaming(t), StepView::PollModel),
            Ok((t, Some(event))) => wait(p, PhaseView::Forwarding(t), StepView::Emit { event }),
        },
        (PhaseView::Streaming(t), ReplyView::StreamEnd) => {
            let t = turn::ordered_turn(t);
            end_calls(
                p,
                turn::end_events(t, turn::turn_args(t)),
                turn::turn_outcome(t, turn::turn_args(t)),
            )
        },
        (PhaseView::Forwarding(t), ReplyView::Sent(sent)) => if sent {
            wait(p, PhaseView::Streaming(t), StepView::PollModel)
        } else {
            fail(p, AgentErrorView::Cancelled)
        },
        (PhaseView::EndingCalls(rest, result), ReplyView::Sent(sent)) => if sent {
            end_calls(p, rest, result)
        } else {
            fail(p, AgentErrorView::Cancelled)
        },
        (PhaseView::EndingTurn(reason, uses), ReplyView::Sent(sent)) => if sent {
            after_turn(p, reason, uses)
        } else {
            fail(p, AgentErrorView::Cancelled)
        },
        (PhaseView::Permission(run), ReplyView::Permission(d)) => match tool_run::policy_gate(
            at_hand(run).name,
            d,
            p.config.can_ask,
        ) {
            PolicyGateView::Ask { prompt } => wait(
                p,
                PhaseView::Asking(run),
                StepView::AskUser { prompt },
            ),
            PolicyGateView::Settled(r) => gate_next(p, tool_run::with_gated(run, r)),
        },
        (PhaseView::Asking(run), ReplyView::Permission(d)) => gate_next(
            p,
            tool_run::with_gated(run, tool_run::verdict(at_hand(run).name, d)),
        ),
        (PhaseView::RunningOne(run, _), ReplyView::Cancelled) => fail_at(
            p,
            run.turn,
            AgentErrorView::Cancelled,
        ),
        (PhaseView::RunningOne(run, at), ReplyView::ToolReturned(Ok(r))) => run_next(
            p,
            tool_run::with_result(run, at, r),
            at + 1,
        ),
        (PhaseView::RunningOne(run, at), ReplyView::ToolReturned(Err(e))) => fail_at(
            p,
            run.turn,
            error::tool_error(run.calls[at].name, e),
        ),
        (PhaseView::Joining(run), ReplyView::Cancelled) => fail_at(
            p,
            run.turn,
            AgentErrorView::Cancelled,
        ),
        (PhaseView::Joining(run), ReplyView::Joined { index, result }) => if 0 <= index
            < run.results.len() && run.results[index] is None {
            match result {
                Ok(r) => wait(
                    p,
                    PhaseView::Joining(tool_run::with_result(run, index, r)),
                    StepView::JoinTool,
                ),
                Err(e) => fail_at(p, run.turn, error::tool_error(run.calls[index].name, e)),
            }
        } else {
            (s, StepView::Unexpected)
        },
        (PhaseView::Joining(run), ReplyView::JoinFailed { cancelled, message }) => fail_at(
            p,
            run.turn,
            if cancelled {
                AgentErrorView::Cancelled
            } else {
                AgentErrorView::Other("tool task panicked: "@ + message)
            },
        ),
        (PhaseView::Joining(run), ReplyView::AllJoined) => report(p, run, 0),
        (PhaseView::Reporting(run, at), ReplyView::Sent(sent)) => if sent {
            dispatch(
                p,
                run.turn,
                tool_run::post_tool_event(run.calls[at], run.results[at]->0),
                ThenView::Report(run, at),
            )
        } else {
            fail_at(p, run.turn, AgentErrorView::Cancelled)
        },
        (PhaseView::StopCheck(reason), ReplyView::Stop(stop)) => if stop {
            finish(p, reason)
        } else {
            go_on(p)
        },
        (PhaseView::Finishing, ReplyView::Sent(sent)) => if sent {
            wait(p, PhaseView::Over, StepView::Done { result: Ok(()) })
        } else {
            fail(p, AgentErrorView::Cancelled)
        },
        (PhaseView::ErrorHooks(e, turn, called), ReplyView::Hook(_)) => if called + 1
            < p.config.hooks {
            wait(
                p,
                PhaseView::ErrorHooks(e, turn, called + 1),
                StepView::CallHook { index: (called + 1) as int, ctx: error_ctx(p, turn, e) },
            )
        } else {
            tell_error(p, e)
        },
        (PhaseView::Failing(e), ReplyView::Sent(_)) => wait(
            p,
            PhaseView::Over,
            StepView::Done { result: Err(e) },
        ),
        _ => (s, StepView::Unexpected),
    }
}

/// All calls are past the gates, and the one at `at` has a result.
pub open spec fn has_result(run: ToolRunView, at: int) -> bool {
    run.results.len() == run.calls.len() && 0 <= at < run.results.len() && run.results[at] is Some
}

/// A call is at hand.
pub open spec fn has_call(run: ToolRunView) -> bool {
    run.results.len() < run.calls.len()
}

/// What holds of what follows the hooks: the event is the one that belongs there.
pub open spec fn then_fits(then: ThenView, event: HookEventView) -> bool {
    match then {
        ThenView::CallModel => event is PreModel,
        ThenView::Permit(run) => has_call(run),
        ThenView::Report(run, at) => has_result(run, at),
        _ => true,
    }
}

/// All these events tell of the end of a call.
pub open spec fn only_call_ends(events: Seq<AgentEventView>) -> bool {
    forall|i: int| 0 <= i < events.len() ==> (#[trigger] events[i]) is ToolCallEnd
}

/// What holds of a run at any time.
pub open spec fn well_formed(s: LoopView) -> bool {
    match s.phase {
        PhaseView::Hooks(chain, then) => chain.called < s.progress.config.hooks && then_fits(
            then,
            chain.event,
        ),
        PhaseView::EndingCalls(rest, _) => only_call_ends(rest),
        PhaseView::Permission(run) => has_call(run) && s.progress.config.has_policy,
        PhaseView::Asking(run) => has_call(run) && s.progress.config.has_policy,
        PhaseView::RunningOne(run, at) => run.results.len() == run.calls.len() && 0 <= at
            < run.results.len() && run.results[at] is None,
        PhaseView::Joining(run) => run.results.len() == run.calls.len(),
        PhaseView::Reporting(run, at) => has_result(run, at),
        PhaseView::StopCheck(_) => s.progress.config.has_stop,
        PhaseView::ErrorHooks(_, _, called) => called < s.progress.config.hooks,
        _ => true,
    }
}

/// A run before its first step.
pub open spec fn new_loop(config: LoopConfigView, session: SessionView) -> LoopView {
    LoopView {
        progress: ProgressView {
            config,
            session,
            total_usage: crate::language_model::event::no_usage(),
            turn: 0,
        },
        phase: PhaseView::Start,
    }
}

/// Where a run stands and what is to be done next.
pub struct Moved {
    /// The run.
    pub run: AgentLoop,
    /// What is to be done next.
    pub step: Step,
}

impl View for Moved {
    type V = Move;

    open spec fn view(&self) -> Move {
        (self.run@, self.step@)
    }
}

impl Progress {
    fn ctx(&self, turn: u32, event: HookEvent) -> (r: HookCtx)
        ensures
            r@ == hook_ctx(self@, turn, event@),
    {
        HookCtx {
            turn,
            provider_id: self.config.provider_id.clone(),
            model_id: self.config.model_id.clone(),
            session_id: self.session.id_if_any(),
            event,
        }
    }

    fn error_ctx(&self, turn: u32, e: &AgentError) -> (r: HookCtx)
        ensures
            r@ == error_ctx(self@, turn, e@),
    {
        self.ctx(turn, HookEvent::OnError { message: e.to_text() })
    }

    fn request(&self) -> (r: LanguageModelRequest)
        ensures
            r@ == turn_request(self@),
    {
        let messages = self.session.messages.clone();
        let tools = self.config.tool_specs.clone();
        assert(messages.deep_view() =~= self.session.messages.deep_view());
        assert(tools.deep_view() =~= self.config.tool_specs.deep_view());
        let stop: Vec<String> = Vec::new();
        assert(stop.deep_view() =~= Seq::empty());
        LanguageModelRequest {
            messages,
            system: self.config.system.clone(),
            tools,
            tool_choice: self.config.tool_choice.clone(),
            temperature: self.config.temperature,
            max_tokens: self.config.max_tokens,
            stop,
            provider_metadata: KeyMap::new(),
        }
    }

    fn wait(self, phase: Phase, step: Step) -> (r: Moved)
        requires
            well_formed((LoopView { progress: self@, phase: phase@ })),
        ensures
            r@ == wait(self@, phase@, step@),
    {
        Moved { run: AgentLoop { progress: self, phase }, step }
    }

    fn tell_error(self, e: AgentError) -> (r: Moved)
        ensures
            r@ == tell_error(self@, e@),
    {
        let event = error_event(&e);
        self.wait(Phase::Failing(e), Step::Emit { event })
    }

    fn fail_at(self, turn: u32, e: AgentError) -> (r: Moved)
        ensures
            r@ == fail_at(self@, turn, e@),
    {
        if self.config.hooks == 0 {
            self.tell_error(e)
        } else {
            let ctx = self.error_ctx(turn, &e);
            self.wait(Phase::ErrorHooks(e, turn, 0), Step::CallHook { index: 0, ctx })
        }
    }

    fn fail(self, e: AgentError) -> (r: Moved)
        ensures
            r@ == fail(self@, e@),
    {
        let turn = self.turn;
        self.fail_at(turn, e)
    }

    fn begin_turn(self) -> (r: Moved)
        ensures
            r@ == begin_turn(self@),
    {
        self.wait(Phase::CancelCheck, Step::CheckCancel)
    }

    fn end_turn(self, o: TurnOutcome) -> (r: Moved)
        ensures
            r@ == end_turn(self@, o@),
    {
        let mut this = self;
        let TurnOutcome { assistant_message, finish_reason, usage, tool_uses } = o;
        this.total_usage = add_usage(this.total_usage, usage);
        this.session.push(assistant_message);
        let event = AgentEvent::TurnEnd { turn: this.turn, reason: finish_reason, usage };
        this.wait(Phase::EndingTurn(finish_reason, tool_uses), Step::Emit { event })
    }

    fn tell_finish(self, reason: FinishReason) -> (r: Moved)
        ensures
            r@ == tell_finish(self@, reason),
    {
        let event = AgentEvent::Finish { turns: self.turn, reason, usage: self.total_usage };
        self.wait(Phase::Finishing, Step::Emit { event })
    }

    fn go_on(self) -> (r: Moved)
        ensures
            r@ == go_on(self@),
    {
        if self.turn >= self.config.max_turns {
            let limit = self.config.max_turns;
            self.fail(AgentError::MaxTurns(limit))
        } else {
            self.begin_turn()
        }
    }

    fn close_tools(self, run: ToolRun) -> (r: Moved)
        requires
            run@.results.len() <= run@.calls.len(),
        ensures
            r@ == close_tools(self@, run@),
    {
        let mut this = self;
        let state = LoopState {
            turns: this.turn,
            last_reason: run.reason,
            last_tool_call_count: run.calls.len() as u32,
        };
        let blocks = run.blocks();
        this.session.push(Message::new(Role::Tool, blocks));
        if this.config.has_stop {
            this.wait(Phase::StopCheck(run.reason), Step::EvaluateStop { state })
        } else {
            this.go_on()
        }
    }

    fn report(self, run: ToolRun, from: usize) -> (r: Moved)
        requires
            run@.results.len() == run@.calls.len(),
            from <= run@.results.len(),
        ensures
            r@ == report(self@, run@, from as int),
    {
        let i = run.next(from, true);
        if i < run.results.len() {
            let event = run.event_at(i);
            self.wait(Phase::Reporting(run, i), Step::Emit { event })
        } else {
            self.close_tools(run)
        }
    }

    fn proceed(self, then: Then, request: Option<LanguageModelRequest>) -> (r: Moved)
        requires
            match then@ {
                ThenView::CallModel => request is Some,
                ThenView::Permit(run) => has_call(run) && self@.config.has_policy,
                ThenView::Report(run, at) => has_result(run, at),
                _ => true,
            },
        ensures
            r@ == proceed(self@, then@, request.deep_view()),
    {
        match then {
            Then::FirstTurn => self.begin_turn(),
            Then::CallModel => {
                let request = request.unwrap();
                self.wait(Phase::Opening, Step::OpenModel { request })
            },
            Then::EndTurn(o) => self.end_turn(o),
            Then::Finish(reason) => self.tell_finish(reason),
            Then::Permit(run) => {
                let call = run.ready_at(run.results.len());
                self.wait(
                    Phase::Permission(run),
                    Step::CheckPermission { name: call.name, arguments: call.arguments },
                )
            },
            Then::Report(run, at) => {
                assert(at < run.results.len());
                self.report(run, at + 1)
            },
        }
    }

    fn dispatch(self, turn: u32, event: HookEvent, then: Then) -> (r: Moved)
        requires
            then_fits(then@, event@),
            then@ is Permit ==> self@.config.hooks > 0 || self@.config.has_policy,
        ensures
            r@ == dispatch(self@, turn, event@, then@),
    {
        if self.config.hooks == 0 {
            self.proceed(then, hook::into_carried(event))
        } else {
            let ctx = self.ctx(turn, event.clone());
            self.wait(
                Phase::Hooks(HookChain::new(turn, event), then),
                Step::CallHook { index: 0, ctx },
            )
        }
    }

    fn run_next(self, run: ToolRun, from: usize) -> (r: Moved)
        requires
            run@.results.len() == run@.calls.len(),
            from <= run@.results.len(),
        ensures
            r@ == run_next(self@, run@, from as int),
    {
        let i = run.next(from, false);
        if i < run.results.len() {
            let call = run.ready_at(i);
            self.wait(Phase::RunningOne(run, i), Step::RunTool { call })
        } else {
            self.report(run, 0)
        }
    }

    fn start_tools(self, run: ToolRun) -> (r: Moved)
        requires
            run@.results.len() == run@.calls.len(),
        ensures
            r@ == start_tools(self@, run@),
    {
        let calls = run.ready();
        if self.config.parallel_tool_calls && calls.len() > 1 {
            self.wait(Phase::Joining(run), Step::SpawnTools { calls })
        } else {
            self.run_next(run, 0)
        }
    }

    fn gate_next(self, run: ToolRun) -> (r: Moved)
        requires
            run@.results.len() <= run@.calls.len(),
        ensures
            r@ == gate_next(self@, run@),
    {
        if run.results.len() >= run.calls.len() {
            self.start_tools(run)
        } else if self.config.hooks == 0 && !self.config.has_policy {
            self.start_tools(run.allow_rest())
        } else {
            let event = run.pre_event_at(run.results.len());
            self.dispatch(run.turn, event, Then::Permit(run))
        }
    }

    fn after_hooks(self, then: Then, flow: HookFlow) -> (r: Moved)
        requires
            match then@ {
                ThenView::CallModel => flow@ is Continue ==> flow@->Continue_0 is Some,
                ThenView::Permit(run) => has_call(run),
                ThenView::Report(run, at) => has_result(run, at),
                _ => true,
            },
        ensures
            r@ == after_hooks(self@, then@, flow@),
    {
        match then {
            Then::Permit(run) => {
                let call = run.ready_at(run.results.len());
                match gate_after_hooks(&call.name, flow) {
                    HookGate::CheckPermission => if self.config.has_policy {
                        self.proceed(Then::Permit(run), None)
                    } else {
                        self.gate_next(run.gated(settle_verdict(&call.name, Decision::Allow)))
                    },
                    HookGate::Refused(r) => self.gate_next(run.gated(Some(r))),
                    HookGate::Halted(e) => self.fail_at(run.turn, e),
                }
            },
            Then::Finish(reason) => self.proceed(Then::Finish(reason), None),
            Then::Report(run, at) => match flow {
                HookFlow::Halt(reason) => self.fail_at(run.turn, AgentError::HookHalt(reason)),
                _ => self.proceed(Then::Report(run, at), None),
            },
            then => match flow {
                HookFlow::Continue(request) => self.proceed(then, request),
                HookFlow::Deny(reason) => self.fail(AgentError::HookHalt(reason)),
                HookFlow::Halt(reason) => self.fail(AgentError::HookHalt(reason)),
            },
        }
    }

    fn finish(self, reason: FinishReason) -> (r: Moved)
        ensures
            r@ == finish(self@, reason),
    {
        let turn = self.turn;
        let event = HookEvent::OnFinish { turns: turn, reason, usage: self.total_usage };
        self.dispatch(turn, event, Then::Finish(reason))
    }

    fn end_calls(self, rest: Vec<AgentEvent>, result: Result<TurnOutcome, AgentError>) -> (r: Moved)
        requires
            only_call_ends(rest.deep_view()),
        ensures
            r@ == end_calls(self@, rest.deep_view(), model::result_view(result)),
    {
        let mut rest = rest;
        if rest.len() > 0 {
            let ghost all = rest.deep_view();
            let event = rest.remove(0);
            assert(all[0] == event@);
            assert(rest.deep_view() =~= all.drop_first());
            assert(forall|i: int| 0 <= i < rest@.len() ==> all.drop_first()[i] == all[i + 1]);
            self.wait(Phase::EndingCalls(rest, result), Step::Emit { event })
        } else {
            match result {
                Ok(o) => {
                    let turn = self.turn;
                    let event = HookEvent::PostModel {
                        message: o.assistant_message.clone(),
                        usage: o.usage,
                    };
                    self.dispatch(turn, event, Then::EndTurn(o))
                },
                Err(e) => self.fail(e),
            }
        }
    }

    fn after_turn(self, reason: FinishReason, uses: Vec<FinalToolUse>) -> (r: Moved)
        ensures
            r@ == after_turn(self@, reason, uses.deep_view()),
    {
        let mut this = self;
        this.turn = this.turn.saturating_add(1);
        if uses.len() == 0 {
            this.finish(reason)
        } else {
            let turn: u32 = this.turn - 1;
            match preflight(&uses, &this.config.tool_specs) {
                Err(e) => this.fail_at(turn, e),
                Ok(_) => {
                    let run = ToolRun::new(turn, reason, uses);
                    this.gate_next(run)
                },
            }
        }
    }
}

impl AgentLoop {
    #[verifier::type_invariant]
    spec fn valid(self) -> bool {
        well_formed(self@)
    }

    /// A run before its first step. The session holds the user's input already.
    pub fn new(config: LoopConfig, session: Session) -> (r: Self)
        ensures
            r@ == new_loop(config@, session@),
    {
        AgentLoop {
            progress: Progress {
                config,
                session,
                total_usage: Usage { input_tokens: 0, output_tokens: 0, cached_input_tokens: 0 },
                turn: 0,
            },
            phase: Phase::Start,
        }
    }

    /// The conversation so far.
    pub fn session(&self) -> (r: &Session)
        ensures
            r@ == self@.progress.session,
    {
        &self.progress.session
    }

    /// Takes what came of the step at hand, and says what is to be done next.
    pub fn resume(self, reply: Reply) -> (r: Moved)
        ensures
            r@ == next(self@, reply@),
    {
        proof {
            use_type_invariant(&self);
        }
        let AgentLoop { progress: p, phase } = self;
        match (phase, reply) {
            (Phase::Start, Reply::Begin) => if p.config.initial_input.as_str().is_empty() {
                p.begin_turn()
            } else {
                let turn = p.turn;
                let event = HookEvent::UserPromptSubmit { input: p.config.initial_input.clone() };
                p.dispatch(turn, event, Then::FirstTurn)
            },
            (Phase::Hooks(chain, then), Reply::Hook(outcome)) => {
                match chain.answer(p.config.hooks, outcome) {
                    Ok(chain) => {
                        let ctx = p.ctx(chain.turn, chain.event.clone());
                        let index = chain.called;
                        p.wait(Phase::Hooks(chain, then), Step::CallHook { index, ctx })
                    },
                    Err(flow) => p.after_hooks(then, flow),
                }
            },
            (Phase::CancelCheck, Reply::CancelState(cancelled)) => if cancelled {
                p.fail(AgentError::Cancelled)
            } else {
                let turn = p.turn;
                let request = p.request();
                p.dispatch(turn, HookEvent::PreModel { request }, Then::CallModel)
            },
            (Phase::Opening, Reply::Cancelled) => p.fail(AgentError::Cancelled),
            (Phase::Opening, Reply::Opened(Err(e))) => p.fail(AgentError::from(e)),
            (Phase::Opening, Reply::Opened(Ok(_))) => {
                let turn = TurnState::new(p.turn);
                p.wait(Phase::Streaming(turn), Step::PollModel)
            },
            (Phase::Streaming(_), Reply::Cancelled) => p.fail(AgentError::Cancelled),
            (Phase::Streaming(t), Reply::Event(e)) => {
                let mut t = t;
                match t.absorb(e) {
                    Err(e) => p.fail(e),
                    Ok(None) => p.wait(Phase::Streaming(t), Step::PollModel),
                    Ok(Some(event)) => p.wait(Phase::Forwarding(t), Step::Emit { event }),
                }
            },
            (Phase::Streaming(t), Reply::StreamEnd) => {
                let end = t.finish();
                p.end_calls(end.events, end.result)
            },
            (Phase::Forwarding(t), Reply::Sent(sent)) => if sent {
                p.wait(Phase::Streaming(t), Step::PollModel)
            } else {
                p.fail(AgentError::Cancelled)
            },
            (Phase::EndingCalls(rest, result), Reply::Sent(sent)) => if sent {
                p.end_calls(rest, result)
            } else {
                p.fail(AgentError::Cancelled)
            },
            (Phase::EndingTurn(reason, uses), Reply::Sent(sent)) => if sent {
                p.after_turn(reason, uses)
            } else {
                p.fail(AgentError::Cancelled)
            },
            (Phase::Permission(run), Reply::Permission(d)) => {
                let call = run.ready_at(run.results.len());
                match gate_after_policy(&call.name, d, p.config.can_ask) {
                    PolicyGate::Ask { prompt } => p.wait(
                        Phase::Asking(run),
                        Step::AskUser { prompt },
                    ),
                    PolicyGate::Settled(r) => p.gate_next(run.gated(r)),
                }
            },
            (Phase::Asking(run), Reply::Permission(d)) => {
                let call = run.ready_at(run.results.len());
                p.gate_next(run.gated(settle_verdict(&call.name, d)))
            },
            (Phase::RunningOne(run, _), Reply::Cancelled) => p.fail_at(
                run.turn,
                AgentError::Cancelled,
            ),
            (Phase::RunningOne(run, at), Reply::ToolReturned(Ok(r))) => {
                assert(at < run.results.len());
                p.run_next(run.fill(at, r), at + 1)
            },
            (Phase::RunningOne(run, at), Reply::ToolReturned(Err(e))) => {
                let call = run.ready_at(at);
                p.fail_at(run.turn, map_tool_err(call.name, e))
            },
            (Phase::Joining(run), Reply::Cancelled) => p.fail_at(run.turn, AgentError::Cancelled),
            (Phase::Joining(run), Reply::Joined { index, result }) => {
                if index < run.results.len() && run.next(index, false) == index {
                    match result {
                        Ok(r) => p.wait(Phase::Joining(run.fill(index, r)), Step::JoinTool),
                        Err(e) => {
                            let call = run.ready_at(index);
                            p.fail_at(run.turn, map_tool_err(call.name, e))
                        },
                    }
                } else {
                    p.wait(Phase::Joining(run), Step::Unexpected)
                }
            },
            (Phase::Joining(run), Reply::JoinFailed { cancelled, message }) => if cancelled {
                p.fail_at(run.turn, AgentError::Cancelled)
            } else {
                let text = concat2("tool task panicked: ", message.as_str());
                p.fail_at(run.turn, AgentError::Other(text))
            },
            (Phase::Joining(run), Reply::AllJoined) => p.report(run, 0),
            (Phase::Reporting(run, at), Reply::Sent(sent)) => if sent {
                let event = run.post_event_at(at);
                p.dispatch(run.turn, event, Then::Report(run, at))
            } else {
                p.fail_at(run.turn, AgentError::Cancelled)
            },
            (Phase::StopCheck(reason), Reply::Stop(stop)) => if stop {
                p.finish(reason)
            } else {
                p.go_on()
            },
            (Phase::Finishing, Reply::Sent(sent)) => if sent {
                p.wait(Phase::Over, Step::Done { result: Ok(()) })
            } else {
                p.fail(AgentError::Cancelled)
            },
            (Phase::ErrorHooks(e, turn, called), Reply::Hook(_)) => if called < p.config.hooks - 1 {
                let ctx = p.error_ctx(turn, &e);
                let index = called + 1;
                p.wait(Phase::ErrorHooks(e, turn, index), Step::CallHook { index, ctx })
            } else {
                p.tell_error(e)
            },
            (Phase::Failing(e), Reply::Sent(_)) => p.wait(
                Phase::Over,
                Step::Done { result: Err(e) },
            ),
            (phase, _) => p.wait(phase, Step::Unexpected),
        }
    }
}

} // verus!
