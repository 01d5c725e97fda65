//! What a run hands to the model, to the hooks, to the tools and to the caller.

use crate::agent::error;
use crate::agent::hook::{HookCtxView, HookEventView, HookOutcomeView};
use crate::agent::run_laws;
use crate::agent::run_loop;
use crate::agent::run_loop::{
    LoopConfigView, LoopView, PhaseView, ProgressView, ReplyView, StepView, ThenView,
};
use crate::agent::session::SessionView;
use crate::language_model::request::RequestView;
use vstd::prelude::*;

verus! {

/// Whether a request says all that a run has to say to the model: the system prompt, the tools, how
/// to pick them, the temperature and the cap on output tokens as they are configured, and the whole
/// conversation.
pub open spec fn faithful(request: RequestView, p: ProgressView) -> bool {
    &&& request.messages == p.session.messages
    &&& request.system == p.config.system
    &&& request.tools == p.config.tool_specs
    &&& request.tool_choice == p.config.tool_choice
    &&& request.temperature == p.config.temperature
    &&& request.max_tokens == p.config.max_tokens
    &&& request.stop.len() == 0
    &&& request.provider_metadata.len() == 0
}

/// Where the run was not cancelled and there are no hooks, the model is called, with all that the
/// run has to say.
pub proof fn law_model_gets_the_request(s: LoopView)
    requires
        s.phase is CancelCheck,
        s.progress.config.hooks == 0,
    ensures
        run_loop::next(s, ReplyView::CancelState(false)).1 matches StepView::OpenModel { request }
            && request.messages == s.progress.session.messages
            && request.system == s.progress.config.system
            && request.tools == s.progress.config.tool_specs
            && request.tool_choice == s.progress.config.tool_choice
            && request.temperature == s.progress.config.temperature
            && request.max_tokens == s.progress.config.max_tokens
            && request.stop.len() == 0
            && request.provider_metadata.len() == 0,
{
}

/// Whether the event that is on its way through the hooks is the one that belongs to what follows.
pub open spec fn event_belongs(p: ProgressView, turn: u32, event: HookEventView, then: ThenView) -> bool {
    match then {
        ThenView::FirstTurn => event == (HookEventView::UserPromptSubmit {
            input: p.config.initial_input,
        }) && turn == p.turn,
        ThenView::CallModel => event is PreModel && turn == p.turn,
        ThenView::EndTurn(o) => event == (HookEventView::PostModel {
            message: o.assistant_message,
            usage: o.usage,
        }) && turn == p.turn,
        ThenView::Finish(reason) => event == (HookEventView::OnFinish {
            turns: p.turn,
            reason,
            usage: p.total_usage,
        }) && turn == p.turn,
        ThenView::Permit(run) => {
            let call = run.calls[run.results.len() as int];
            event == (HookEventView::PreToolUse {
                tool_use_id: call.id,
                name: call.name,
                arguments: call.arguments,
            }) && turn == run.turn
        },
        ThenView::Report(run, at) => {
            event == (HookEventView::PostToolUse {
                tool_use_id: run.calls[at].id,
                name: run.calls[at].name,
                result: run.results[at]->0,
            }) && turn == run.turn
        },
    }
}

/// Whether a hook is called with what belongs to a run: its model and its session, the turn and the
/// event at hand.
pub open spec fn ctx_belongs(s: LoopView, index: int, ctx: HookCtxView) -> bool {
    &&& ctx.provider_id == s.progress.config.provider_id
    &&& ctx.model_id == s.progress.config.model_id
    &&& ctx.session_id == if s.progress.session.id.len() == 0 {
        None
    } else {
        Some(s.progress.session.id)
    }
    &&& match s.phase {
        PhaseView::Hooks(chain, then) => {
            &&& index == chain.called
            &&& ctx.turn == chain.turn
            &&& ctx.event == chain.event
            &&& event_belongs(s.progress, ctx.turn, ctx.event, then)
        },
        PhaseView::ErrorHooks(e, turn, called) => {
            &&& index == called
            &&& ctx.turn == turn
            &&& ctx.event == HookEventView::OnError { message: error::agent_error_text(e) }
        },
        _ => false,
    }
}

/// What holds of a run between two moves, as far as the hooks and the request go: the event at the
/// hooks is the one that belongs there, and, where no hook replaced it, the request is faithful.
pub open spec fn at_the_hooks(s: LoopView, replaced: bool) -> bool {
    match s.phase {
        PhaseView::Hooks(chain, then) => {
            &&& event_belongs(s.progress, chain.turn, chain.event, then)
            &&& then is CallModel && !replaced ==> faithful(chain.event->request, s.progress)
        },
        _ => true,
    }
}

/// What holds of a move: hooks are called with what belongs to the run, and the model is called with
/// all that the run has to say, unless a hook replaced the request.
pub open spec fn hands_on(before: LoopView, after: LoopView, step: StepView, replaced: bool) -> bool {
    &&& at_the_hooks(after, replaced)
    &&& after.progress.config == before.progress.config
    &&& step matches StepView::CallHook { index, ctx } ==> ctx_belongs(after, index, ctx)
    &&& step matches StepView::OpenModel { request } ==> !replaced ==> faithful(
        request,
        after.progress,
    )
}

/// Whether a reply replaces the request.
pub open spec fn replaces(reply: ReplyView) -> bool {
    reply matches ReplyView::Hook(HookOutcomeView::ModifyRequest(_))
}

#[verifier::opaque]
spec fn hands_on_after(s: LoopView, reply: ReplyView, replaced: bool) -> bool {
    at_the_hooks(s, replaced) ==> hands_on(
        s,
        run_loop::next(s, reply).0,
        run_loop::next(s, reply).1,
        replaced || replaces(reply),
    )
}

proof fn lemma_before_turn(s: LoopView, reply: ReplyView, replaced: bool)
    requires
        s.phase is Start || s.phase is CancelCheck || s.phase is Opening || s.phase is Over,
    ensures
        hands_on_after(s, reply, replaced),
{
    reveal(hands_on_after);
}

proof fn lemma_streaming(s: LoopView, reply: ReplyView, replaced: bool)
    requires
        s.phase is Streaming,
    ensures
        hands_on_after(s, reply, replaced),
{
    reveal(hands_on_after);
}

proof fn lemma_telling(s: LoopView, reply: ReplyView, replaced: bool)
    requires
        s.phase is Forwarding || s.phase is EndingCalls,
    ensures
        hands_on_after(s, reply, replaced),
{
    reveal(hands_on_after);
}

proof fn lemma_end_of_turn(s: LoopView, reply: ReplyView, replaced: bool)
    requires
        s.phase is EndingTurn,
    ensures
        hands_on_after(s, reply, replaced),
{
    reveal(hands_on_after);
}

proof fn lemma_permit(s: LoopView, reply: ReplyView, replaced: bool)
    requires
        s.phase matches PhaseView::Hooks(_, ThenView::Permit(_)),
    ensures
        hands_on_after(s, reply, replaced),
{
    reveal(hands_on_after);
}

proof fn lemma_report(s: LoopView, reply: ReplyView, replaced: bool)
    requires
        s.phase matches PhaseView::Hooks(_, ThenView::Report(_, _)),
    ensures
        hands_on_after(s, reply, replaced),
{
    reveal(hands_on_after);
}

proof fn lemma_hooks(s: LoopView, reply: ReplyView, replaced: bool)
    requires
        s.phase matches PhaseView::Hooks(_, then) && !(then is Permit || then is Report),
    ensures
        hands_on_after(s, reply, replaced),
{
    reveal(hands_on_after);
}

proof fn lemma_gates(s: LoopView, reply: ReplyView, replaced: bool)
    requires
        s.phase is Permission || s.phase is Asking,
    ensures
        hands_on_after(s, reply, replaced),
{
    reveal(hands_on_after);
}

proof fn lemma_running(s: LoopView, reply: ReplyView, replaced: bool)
    requires
        s.phase is RunningOne || s.phase is Joining || s.phase is Reporting,
    ensures
        hands_on_after(s, reply, replaced),
{
    reveal(hands_on_after);
}

proof fn lemma_ending(s: LoopView, reply: ReplyView, replaced: bool)
    requires
        s.phase is StopCheck || s.phase is Finishing || s.phase is ErrorHooks || s.phase is Failing,
    ensures
        hands_on_after(s, reply, replaced),
{
    reveal(hands_on_after);
}

proof fn lemma_hands_on(s: LoopView, reply: ReplyView, replaced: bool)
    ensures
        hands_on_after(s, reply, replaced),
{
    match s.phase {
        PhaseView::Streaming(_) => lemma_streaming(s, reply, replaced),
        PhaseView::Forwarding(_) => lemma_telling(s, reply, replaced),
        PhaseView::EndingCalls(_, _) => lemma_telling(s, reply, replaced),
        PhaseView::EndingTurn(_, _) => lemma_end_of_turn(s, reply, replaced),
        PhaseView::Hooks(_, ThenView::Permit(_)) => lemma_permit(s, reply, replaced),
        PhaseView::Hooks(_, ThenView::Report(_, _)) => lemma_report(s, reply, replaced),
        PhaseView::Hooks(_, _) => lemma_hooks(s, reply, replaced),
        PhaseView::Permission(_) => lemma_gates(s, reply, replaced),
        PhaseView::Asking(_) => lemma_gates(s, reply, replaced),
        PhaseView::RunningOne(_, _) => lemma_running(s, reply, replaced),
        PhaseView::Joining(_) => lemma_running(s, reply, replaced),
        PhaseView::Reporting(_, _) => lemma_running(s, reply, replaced),
        PhaseView::StopCheck(_) => lemma_ending(s, reply, replaced),
        PhaseView::Finishing => lemma_ending(s, reply, replaced),
        PhaseView::ErrorHooks(_, _, _) => lemma_ending(s, reply, replaced),
        PhaseView::Failing(_) => lemma_ending(s, reply, replaced),
        _ => lemma_before_turn(s, reply, replaced),
    }
}

/// Whether one of the replies replaces the request.
pub open spec fn any_replaces(replies: Seq<ReplyView>) -> bool {
    exists|i: int| 0 <= i < replies.len() && replaces(#[trigger] replies[i])
}

proof fn lemma_run(s: LoopView, replies: Seq<ReplyView>)
    requires
        at_the_hooks(s, false),
    ensures
        at_the_hooks(run_laws::run_after(s, replies), any_replaces(replies)),
        run_laws::run_after(s, replies).progress.config == s.progress.config,
    decreases replies.len(),
{
    if replies.len() > 0 {
        let front = replies.drop_last();
        lemma_run(s, front);
        lemma_hands_on(run_laws::run_after(s, front), replies.last(), any_replaces(front));
        reveal(hands_on_after);
        if any_replaces(front) {
            let i = choose|i: int| 0 <= i < front.len() && replaces(#[trigger] front[i]);
            assert(replaces(replies[i]));
        }
        if replaces(replies.last()) {
            assert(replaces(replies[replies.len() - 1]));
        }
    }
}

/// In every run, whatever the model, the tools, the hooks and the user reply, each hook is called
/// with the model, the session, the turn and the event that belong there; and as long as no hook
/// replaced a request, each call of the model carries the system prompt, the tools and the settings
/// as they are configured, and the whole conversation.
pub proof fn law_run_hands_on(
    config: LoopConfigView,
    session: SessionView,
    replies: Seq<ReplyView>,
    reply: ReplyView,
)
    ensures
        ({
            let before = run_laws::run_after(run_loop::new_loop(config, session), replies);
            let (after, step) = run_loop::next(before, reply);
            &&& after.progress.config == config
            &&& step matches StepView::CallHook { index, ctx } ==> ctx_belongs(after, index, ctx)
            &&& step matches StepView::OpenModel { request } ==> !any_replaces(replies)
                && !replaces(reply) ==> faithful(request, after.progress)
        }),
{
    let start = run_loop::new_loop(config, session);
    lemma_run(start, replies);
    lemma_hands_on(run_laws::run_after(start, replies), reply, any_replaces(replies));
    reveal(hands_on_after);
}

/// A request goes through the hooks one by one: each sees it as the one before left it, and after
/// the last the model gets it as that one left it.
pub proof fn law_request_through_the_hooks(s: LoopView, outcome: HookOutcomeView)
    requires
        s.phase matches PhaseView::Hooks(chain, ThenView::CallModel) && chain.event is PreModel,
        outcome is Continue || outcome is ModifyRequest,
    ensures
        ({
            let chain = s.phase->Hooks_0;
            let request = match outcome {
                HookOutcomeView::ModifyRequest(other) => other,
                _ => chain.event->request,
            };
            let (after, step) = run_loop::next(s, ReplyView::Hook(outcome));
            if chain.called + 1 < s.progress.config.hooks {
                &&& step matches StepView::CallHook { index, ctx }
                &&& index == chain.called + 1
                &&& ctx.event == HookEventView::PreModel { request }
            } else {
                step == StepView::OpenModel { request }
            }
        }),
{
}

} // verus!
