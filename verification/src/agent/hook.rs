//! Hooks: what they are told, what they answer, and how an event goes through all of them.

use crate::agent::tool::{ToolResult, ToolResultView};
use crate::json::{Json, JsonView};
use crate::language_model::event::{FinishReason, Usage};
use crate::language_model::message::{Message, MessageView};
use crate::language_model::request::{LanguageModelRequest, RequestView};
use vstd::prelude::*;
use vstd::string::*;

verus! {

/// The moments of a run at which hooks are called.
#[allow(inconsistent_fields)]
#[derive(Debug, PartialEq, Eq)]
pub enum HookEvent {
    /// The user's input was appended to the session, before the first model call. A run without
    /// input skips this event.
    UserPromptSubmit {
        /// The input.
        input: String,
    },
    /// The model is about to be called. A hook may replace the request.
    PreModel {
        /// The request.
        request: LanguageModelRequest,
    },
    /// The model answered; the message is not yet in the session.
    PostModel {
        /// The assistant's message.
        message: Message,
        /// What the turn cost.
        usage: Usage,
    },
    /// A tool is about to run.
    PreToolUse {
        /// The call's identifier.
        tool_use_id: String,
        /// The tool's name.
        name: String,
        /// The arguments.
        arguments: Json,
    },
    /// A tool has run, or was denied.
    PostToolUse {
        /// The call's identifier.
        tool_use_id: String,
        /// The tool's name.
        name: String,
        /// The result as the model gets it.
        result: ToolResult,
    },
    /// The run failed and is about to say so.
    OnError {
        /// The error's text.
        message: String,
    },
    /// The run succeeded and is about to say so.
    OnFinish {
        /// The number of turns.
        turns: u32,
        /// Why the run ended.
        reason: FinishReason,
        /// What all turns cost.
        usage: Usage,
    },
}

/// Model of a hook event.
#[allow(inconsistent_fields)]
#[verifier::ext_equal]
pub enum HookEventView {
    UserPromptSubmit { input: Seq<char> },
    PreModel { request: RequestView },
    PostModel { message: MessageView, usage: Usage },
    PreToolUse { tool_use_id: Seq<char>, name: Seq<char>, arguments: JsonView },
    PostToolUse { tool_use_id: Seq<char>, name: Seq<char>, result: ToolResultView },
    OnError { message: Seq<char> },
    OnFinish { turns: u32, reason: FinishReason, usage: Usage },
}

impl View for HookEvent {
    type V = HookEventView;

    open spec fn view(&self) -> HookEventView {
        match *self {
            HookEvent::UserPromptSubmit { input } => HookEventView::UserPromptSubmit {
                input: input@,
            },
            HookEvent::PreModel { request } => HookEventView::PreModel { request: request@ },
            HookEvent::PostModel { message, usage } => HookEventView::PostModel {
                message: message@,
                usage,
            },
            HookEvent::PreToolUse { tool_use_id, name, arguments } => HookEventView::PreToolUse {
                tool_use_id: tool_use_id@,
                name: name@,
                arguments: arguments@,
            },
            HookEvent::PostToolUse { tool_use_id, name, result } => HookEventView::PostToolUse {
                tool_use_id: tool_use_id@,
                name: name@,
                result: result@,
            },
            HookEvent::OnError { message } => HookEventView::OnError { message: message@ },
            HookEvent::OnFinish { turns, reason, usage } => HookEventView::OnFinish {
                turns,
                reason,
                usage,
            },
        }
    }
}

impl DeepView for HookEvent {
    type V = HookEventView;

    open spec fn deep_view(&self) -> HookEventView {
        self@
    }
}

impl Clone for HookEvent {
    fn clone(&self) -> (r: Self)
        ensures
            r@ == self@,
    {
        match self {
            HookEvent::UserPromptSubmit { input } => HookEvent::UserPromptSubmit {
                input: input.clone(),
            },
            HookEvent::PreModel { request } => HookEvent::PreModel { request: request.clone() },
            HookEvent::PostModel { message, usage } => HookEvent::PostModel {
                message: message.clone(),
                usage: *usage,
            },
            HookEvent::PreToolUse { tool_use_id, name, arguments } => HookEvent::PreToolUse {
                tool_use_id: tool_use_id.clone(),
                name: name.clone(),
                arguments: arguments.clone(),
            },
            HookEvent::PostToolUse { tool_use_id, name, result } => HookEvent::PostToolUse {
                tool_use_id: tool_use_id.clone(),
                name: name.clone(),
                result: result.clone(),
            },
            HookEvent::OnError { message } => HookEvent::OnError { message: message.clone() },
            HookEvent::OnFinish { turns, reason, usage } => HookEvent::OnFinish {
                turns: *turns,
                reason: *reason,
                usage: *usage,
            },
        }
    }
}

/// What a hook is called with.
#[derive(Debug, PartialEq, Eq)]
pub struct HookCtx {
    /// The turn at which the hook is called.
    pub turn: u32,
    /// The provider of the model in use.
    pub provider_id: String,
    /// The model in use.
    pub model_id: String,
    /// The session's identifier, where it has one.
    pub session_id: Option<String>,
    /// The event.
    pub event: HookEvent,
}

/// Model of what a hook is called with.
#[verifier::ext_equal]
pub struct HookCtxView {
    pub turn: u32,
    pub provider_id: Seq<char>,
    pub model_id: Seq<char>,
    pub session_id: Option<Seq<char>>,
    pub event: HookEventView,
}

impl View for HookCtx {
    type V = HookCtxView;

    open spec fn view(&self) -> HookCtxView {
        HookCtxView {
            turn: self.turn,
            provider_id: self.provider_id@,
            model_id: self.model_id@,
            session_id: self.session_id.deep_view(),
            event: self.event@,
        }
    }
}

impl DeepView for HookCtx {
    type V = HookCtxView;

    open spec fn deep_view(&self) -> HookCtxView {
        self@
    }
}

/// What a hook answers.
#[derive(Debug, PartialEq, Eq)]
pub enum HookOutcome {
    /// Go on.
    Continue,
    /// Go on with another request. Only heeded before a model call.
    ModifyRequest(Box<LanguageModelRequest>),
    /// Do not run this tool; anywhere else, stop the run.
    Deny(String),
    /// Stop the run.
    Halt(String),
}

/// Model of a hook's answer.
#[verifier::ext_equal]
pub enum HookOutcomeView {
    Continue,
    ModifyRequest(RequestView),
    Deny(Seq<char>),
    Halt(Seq<char>),
}

impl View for HookOutcome {
    type V = HookOutcomeView;

    open spec fn view(&self) -> HookOutcomeView {
        match *self {
            HookOutcome::Continue => HookOutcomeView::Continue,
            HookOutcome::ModifyRequest(req) => HookOutcomeView::ModifyRequest((*req)@),
            HookOutcome::Deny(reason) => HookOutcomeView::Deny(reason@),
            HookOutcome::Halt(reason) => HookOutcomeView::Halt(reason@),
        }
    }
}

impl DeepView for HookOutcome {
    type V = HookOutcomeView;

    open spec fn deep_view(&self) -> HookOutcomeView {
        self@
    }
}

/// What came of an event that went through the hooks.
#[derive(Debug, PartialEq, Eq)]
pub enum HookFlow {
    /// No hook objected. Before a model call, the request as the hooks left it.
    Continue(Option<LanguageModelRequest>),
    /// A hook denied.
    Deny(String),
    /// A hook halted the run.
    Halt(String),
}

/// Model of what came of an event.
#[verifier::ext_equal]
pub enum HookFlowView {
    Continue(Option<RequestView>),
    Deny(Seq<char>),
    Halt(Seq<char>),
}

impl View for HookFlow {
    type V = HookFlowView;

    open spec fn view(&self) -> HookFlowView {
        match *self {
            HookFlow::Continue(req) => HookFlowView::Continue(req.deep_view()),
            HookFlow::Deny(reason) => HookFlowView::Deny(reason@),
            HookFlow::Halt(reason) => HookFlowView::Halt(reason@),
        }
    }
}

impl DeepView for HookFlow {
    type V = HookFlowView;

    open spec fn deep_view(&self) -> HookFlowView {
        self@
    }
}

/// The request that an event carries.
pub open spec fn carried(event: HookEventView) -> Option<RequestView> {
    match event {
        HookEventView::PreModel { request } => Some(request),
        _ => None,
    }
}

/// The event as the next hook sees it: a replaced request is seen by the hooks that follow.
pub open spec fn seen_after(event: HookEventView, outcome: HookOutcomeView) -> HookEventView {
    match (event, outcome) {
        (HookEventView::PreModel { .. }, HookOutcomeView::ModifyRequest(request)) => {
            HookEventView::PreModel { request }
        },
        _ => event,
    }
}

/// What comes of an event when the hooks, in order, answer so. The first to deny or halt decides.
pub open spec fn flow(event: HookEventView, outcomes: Seq<HookOutcomeView>) -> HookFlowView
    decreases outcomes.len(),
{
    if outcomes.len() == 0 {
        HookFlowView::Continue(carried(event))
    } else {
        match outcomes[0] {
            HookOutcomeView::Deny(reason) => HookFlowView::Deny(reason),
            HookOutcomeView::Halt(reason) => HookFlowView::Halt(reason),
            _ => flow(seen_after(event, outcomes[0]), outcomes.drop_first()),
        }
    }
}

/// An event on its way through the hooks.
#[derive(Debug, PartialEq, Eq)]
pub struct HookChain {
    /// The turn at which the event happened.
    pub turn: u32,
    /// The event as the next hook sees it.
    pub event: HookEvent,
    /// The number of hooks that have answered.
    pub called: usize,
}

/// Model of an event on its way.
#[verifier::ext_equal]
pub struct HookChainView {
    pub turn: u32,
    pub event: HookEventView,
    pub called: nat,
}

impl View for HookChain {
    type V = HookChainView;

    open spec fn view(&self) -> HookChainView {
        HookChainView { turn: self.turn, event: self.event@, called: self.called as nat }
    }
}

impl DeepView for HookChain {
    type V = HookChainView;

    open spec fn deep_view(&self) -> HookChainView {
        self@
    }
}

/// Where an event stands after one more answer, out of `hooks` hooks: on its way to the next hook,
/// or at its end.
pub open spec fn chain_next(c: HookChainView, hooks: nat, outcome: HookOutcomeView) -> Result<
    HookChainView,
    HookFlowView,
> {
    match outcome {
        HookOutcomeView::Deny(reason) => Err(HookFlowView::Deny(reason)),
        HookOutcomeView::Halt(reason) => Err(HookFlowView::Halt(reason)),
        _ => {
            let event = seen_after(c.event, outcome);
            if c.called + 1 < hooks {
                Ok(HookChainView { turn: c.turn, event, called: c.called + 1 })
            } else {
                Err(HookFlowView::Continue(carried(event)))
            }
        },
    }
}

/// The request of an event, taken out of it.
pub fn into_carried(event: HookEvent) -> (r: Option<LanguageModelRequest>)
    ensures
        r.deep_view() == carried(event@),
{
    match event {
        HookEvent::PreModel { request } => Some(request),
        _ => None,
    }
}

impl HookChain {
    /// An event before the first hook.
    pub fn new(turn: u32, event: HookEvent) -> (r: Self)
        ensures
            r@ == (HookChainView { turn, event: event@, called: 0 }),
    {
        HookChain { turn, event, called: 0 }
    }

    /// Takes the answer of the hook at hand, out of `hooks` hooks.
    pub fn answer(self, hooks: usize, outcome: HookOutcome) -> (r: Result<HookChain, HookFlow>)
        ensures
            crate::model::result_view(r) == chain_next(self@, hooks as nat, outcome@),
    {
        let HookChain { turn, event, called } = self;
        let event = match outcome {
            HookOutcome::Deny(reason) => {
                return Err(HookFlow::Deny(reason));
            },
            HookOutcome::Halt(reason) => {
                return Err(HookFlow::Halt(reason));
            },
            HookOutcome::ModifyRequest(request) => match event {
                HookEvent::PreModel { .. } => HookEvent::PreModel { request: *request },
                _ => event,
            },
            HookOutcome::Continue => event,
        };
        if hooks > 0 && called < hooks - 1 {
            Ok(HookChain { turn, event, called: called + 1 })
        } else {
            Err(HookFlow::Continue(into_carried(event)))
        }
    }
}

/// Where an event stands after the answers of some hooks.
pub open spec fn chain_after(
    c: HookChainView,
    hooks: nat,
    outcomes: Seq<HookOutcomeView>,
) -> Result<HookChainView, HookFlowView>
    decreases outcomes.len(),
{
    if outcomes.len() == 0 {
        Ok(c)
    } else {
        match chain_next(c, hooks, outcomes[0]) {
            Ok(next) => chain_after(next, hooks, outcomes.drop_first()),
            Err(end) => Err(end),
        }
    }
}

/// Whether an answer lets the event go on to the next hook.
pub open spec fn goes_on(outcome: HookOutcomeView) -> bool {
    !(outcome is Deny) && !(outcome is Halt)
}

/// Asking the hooks one by one comes to what the hooks' answers together mean: once every hook has
/// answered, or one of them has denied or halted, the event is at its end.
pub proof fn law_chain(c: HookChainView, hooks: nat, outcomes: Seq<HookOutcomeView>)
    requires
        c.called + outcomes.len() == hooks,
        outcomes.len() > 0,
    ensures
        chain_after(c, hooks, outcomes) == Err::<HookChainView, HookFlowView>(flow(c.event, outcomes)),
    decreases outcomes.len(),
{
    let rest = outcomes.drop_first();
    match chain_next(c, hooks, outcomes[0]) {
        Ok(next) => {
            law_chain(next, hooks, rest);
        },
        Err(_) => {
            if goes_on(outcomes[0]) {
                assert(rest.len() == 0);
                reveal_with_fuel(flow, 2);
            }
        },
    }
}

/// Only an answer before a model call can change what an event carries: after any other event
/// that no hook stopped there is nothing carried, whatever the hooks answered.
pub proof fn law_modify_only_before_model(event: HookEventView, outcomes: Seq<HookOutcomeView>)
    requires
        !(event is PreModel),
    ensures
        flow(event, outcomes) is Continue ==> flow(event, outcomes) == HookFlowView::Continue(None),
    decreases outcomes.len(),
{
    if outcomes.len() > 0 && goes_on(outcomes[0]) {
        law_modify_only_before_model(event, outcomes.drop_first());
    }
}

/// The first hook to deny or halt decides: what the hooks after it would have answered makes no
/// difference.
pub proof fn law_first_objection_decides(
    event: HookEventView,
    before: Seq<HookOutcomeView>,
    objection: HookOutcomeView,
    after: Seq<HookOutcomeView>,
)
    requires
        forall|i: int| 0 <= i < before.len() ==> goes_on(#[trigger] before[i]),
        !goes_on(objection),
    ensures
        objection matches HookOutcomeView::Deny(reason) ==> flow(
            event,
            before + seq![objection] + after,
        ) == HookFlowView::Deny(reason),
        objection matches HookOutcomeView::Halt(reason) ==> flow(
            event,
            before + seq![objection] + after,
        ) == HookFlowView::Halt(reason),
    decreases before.len(),
{
    let all = before + seq![objection] + after;
    if before.len() > 0 {
        let rest = before.drop_first();
        assert(all[0] == before[0]);
        assert(all.drop_first() =~= rest + seq![objection] + after);
        assert forall|i: int| 0 <= i < rest.len() implies goes_on(#[trigger] rest[i]) by {
            assert(rest[i] == before[i + 1]);
        }
        law_first_objection_decides(seen_after(event, all[0]), rest, objection, after);
    } else {
        assert(all[0] == objection);
    }
}

/// A request goes upstream as the last hook that replaced it left it.
pub proof fn law_last_modification_wins(
    event: HookEventView,
    before: Seq<HookOutcomeView>,
    request: RequestView,
    after: Seq<HookOutcomeView>,
)
    requires
        event is PreModel,
        forall|i: int| 0 <= i < before.len() ==> goes_on(#[trigger] before[i]),
        forall|i: int| 0 <= i < after.len() ==> #[trigger] after[i] == HookOutcomeView::Continue,
    ensures
        flow(event, before + seq![HookOutcomeView::ModifyRequest(request)] + after)
            == HookFlowView::Continue(Some(request)),
    decreases before.len(),
{
    let all = before + seq![HookOutcomeView::ModifyRequest(request)] + after;
    if before.len() > 0 {
        let rest = before.drop_first();
        assert(all[0] == before[0]);
        assert(all.drop_first() =~= rest + seq![HookOutcomeView::ModifyRequest(request)] + after);
        assert forall|i: int| 0 <= i < rest.len() implies goes_on(#[trigger] rest[i]) by {
            assert(rest[i] == before[i + 1]);
        }
        law_last_modification_wins(seen_after(event, all[0]), rest, request, after);
    } else {
        assert(all[0] == HookOutcomeView::ModifyRequest(request));
        assert(all.drop_first() =~= after);
        lemma_all_continue(HookEventView::PreModel { request }, after);
    }
}

proof fn lemma_all_continue(event: HookEventView, outcomes: Seq<HookOutcomeView>)
    requires
        forall|i: int| 0 <= i < outcomes.len() ==> #[trigger] outcomes[i] == HookOutcomeView::Continue,
    ensures
        flow(event, outcomes) == HookFlowView::Continue(carried(event)),
    decreases outcomes.len(),
{
    if outcomes.len() > 0 {
        assert(outcomes[0] == HookOutcomeView::Continue);
        let rest = outcomes.drop_first();
        assert forall|i: int| 0 <= i < rest.len() implies #[trigger] rest[i]
            == HookOutcomeView::Continue by {
            assert(rest[i] == outcomes[i + 1]);
        }
        lemma_all_continue(event, rest);
    }
}

} // verus!
