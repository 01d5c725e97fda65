//! What holds of every run of the agent loop.

use crate::agent::error::AgentErrorView;
use crate::agent::event;
use crate::agent::event::AgentEventView;
use crate::agent::hook::{HookFlowView, HookOutcomeView};
use crate::agent::permission::DecisionView;
use crate::agent::run_loop;
use crate::agent::run_loop::{
    LoopConfigView, LoopView, PhaseView, ProgressView, ReplyView, StepView, ThenView,
};
use crate::agent::session::SessionView;
use crate::agent::tool::ToolResultView;
use crate::agent::tool_run;
use crate::agent::tool_run::{HookGateView, PolicyGateView, ToolRunView};
use crate::agent::turn::ToolUseView;
use crate::anthropic::request_map;
use crate::language_model::event::Usage;
use crate::language_model::error::ModelErrorView;
use crate::language_model::message::{ContentBlockView, MessageView, Role};
use crate::openai::{chat, responses};
use vstd::prelude::*;

verus! {

/// Where a run stands after some replies.
pub open spec fn run_after(s: LoopView, replies: Seq<ReplyView>) -> LoopView
    decreases replies.len(),
{
    if replies.len() == 0 {
        s
    } else {
        run_loop::next(run_after(s, replies.drop_last()), replies.last()).0
    }
}

/// The steps that a run asked for, one after each reply.
pub open spec fn steps(s: LoopView, replies: Seq<ReplyView>) -> Seq<StepView>
    decreases replies.len(),
{
    if replies.len() == 0 {
        Seq::empty()
    } else {
        steps(s, replies.drop_last()).push(
            run_loop::next(run_after(s, replies.drop_last()), replies.last()).1,
        )
    }
}

pub(crate) proof fn lemma_next_call(results: Seq<Option<ToolResultView>>, from: int, done: bool)
    requires
        0 <= from <= results.len(),
    ensures
        from <= tool_run::next_call(results, from, done) <= results.len(),
        tool_run::next_call(results, from, done) < results.len() ==> (results[tool_run::next_call(
            results,
            from,
            done,
        )] is Some) == done,
    decreases results.len() - from,
{
    if from < results.len() && (results[from] is Some) != done {
        lemma_next_call(results, from + 1, done);
    }
}

/// Every move keeps a run well-formed: the hooks are called in range, a call is at hand where one
/// is asked about, and a result is there where one is told.
pub proof fn law_moves_keep_well_formed(s: LoopView, reply: ReplyView)
    requires
        run_loop::well_formed(s),
    ensures
        run_loop::well_formed(run_loop::next(s, reply).0),
{
    match s.phase {
        PhaseView::RunningOne(run, at) => {
            match reply {
                ReplyView::ToolReturned(Ok(r)) => {
                    let run = tool_run::with_result(run, at, r);
                    lemma_next_call(run.results, at + 1, false);
                    lemma_next_call(run.results, 0, true);
                },
                _ => {},
            }
        },
        PhaseView::Joining(run) => {
            lemma_next_call(run.results, 0, true);
        },
        PhaseView::Hooks(chain, then) => {
            match then {
                ThenView::Report(run, at) => {
                    lemma_next_call(run.results, at + 1, true);
                },
                ThenView::Permit(run) => {
                    lemma_gated(s.progress, run);
                },
                _ => {},
            }
        },
        PhaseView::Permission(run) => {
            lemma_gated(s.progress, run);
        },
        PhaseView::Asking(run) => {
            lemma_gated(s.progress, run);
        },
        PhaseView::EndingTurn(reason, uses) => {
            let q = ProgressView { turn: event::capped_sum(s.progress.turn, 1), ..s.progress };
            lemma_gate_next(q, tool_run::new_tool_run((q.turn - 1) as u32, reason, uses));
        },
        PhaseView::Reporting(run, at) => {
            lemma_next_call(run.results, at + 1, true);
        },
        PhaseView::EndingCalls(rest, _) => {
            assert(forall|i: int| 0 <= i < rest.len() - 1 ==> rest.drop_first()[i] == rest[i + 1]);
        },
        _ => {},
    }
}

proof fn lemma_gate_next(p: ProgressView, run: ToolRunView)
    requires
        run.results.len() <= run.calls.len(),
    ensures
        run_loop::well_formed(run_loop::gate_next(p, run).0),
{
    let rest = tool_run::with_rest_allowed(run);
    lemma_next_call(run.results, 0, false);
    lemma_next_call(run.results, 0, true);
    lemma_next_call(rest.results, 0, false);
    lemma_next_call(rest.results, 0, true);
}

proof fn lemma_gated(p: ProgressView, run: ToolRunView)
    requires
        run_loop::has_call(run),
    ensures
        forall|r: Option<ToolResultView>|
            run_loop::well_formed(
                (#[trigger] run_loop::gate_next(p, tool_run::with_gated(run, r))).0,
            ),
{
    assert forall|r: Option<ToolResultView>|
        run_loop::well_formed((#[trigger] run_loop::gate_next(p, tool_run::with_gated(run, r))).0) by {
        lemma_gate_next(p, tool_run::with_gated(run, r));
    }
}

/// A run that is over stays over, and asks for nothing.
pub proof fn law_over_is_over(s: LoopView, reply: ReplyView)
    requires
        s.phase is Over,
    ensures
        run_loop::next(s, reply) == (s, StepView::Unexpected),
{
}

/// A run ends well only once the caller took the event that says so, and ends badly only once the
/// caller was told of the error; then it is over.
pub proof fn law_endings(s: LoopView, reply: ReplyView)
    ensures
        ({
            let (after, step) = run_loop::next(s, reply);
            match step {
                StepView::Done { result: Ok(_) } => s.phase is Finishing && reply == ReplyView::Sent(
                    true,
                ) && after.phase is Over,
                StepView::Done { result: Err(e) } => s.phase == PhaseView::Failing(e)
                    && after.phase is Over,
                _ => after.phase is Over ==> s.phase is Over,
            }
        }),
{
}

/// The caller is told of an error exactly when the run comes to fail, and the text is that of the
/// error with which the run then ends.
pub proof fn law_error_event(s: LoopView, reply: ReplyView)
    requires
        run_loop::well_formed(s),
        run_loop::next(s, reply).1 !is Unexpected,
    ensures
        error_told(run_loop::next(s, reply)),
{
    lemma_step_facts(s, reply);
    reveal(step_facts);
}

/// A run that comes to fail tells the caller of the error, and no other move does.
pub open spec fn error_told(m: run_loop::Move) -> bool {
    match m.0.phase {
        PhaseView::Failing(e) => m.1 == (StepView::Emit { event: event::error_event_of(e) }),
        _ => match m.1 {
            StepView::Emit { event } => !(event is Error),
            _ => true,
        },
    }
}

/// What a move does to the sum of what the turns cost: the end of a turn adds to it and nothing
/// else does, and the end of the run tells it, with the number of turns.
pub open spec fn usage_kept(p: ProgressView, m: run_loop::Move) -> bool {
    match m.1 {
        StepView::Emit { event: AgentEventView::TurnEnd { usage, .. } } => {
            m.0.progress.total_usage == event::usage_sum(p.total_usage, usage)
        },
        StepView::Emit { event: AgentEventView::Finish { turns, usage, .. } } => {
            &&& m.0.progress.total_usage == p.total_usage
            &&& usage == m.0.progress.total_usage
            &&& turns == m.0.progress.turn
        },
        _ => m.0.progress.total_usage == p.total_usage,
    }
}

/// What a move does to the number of model calls that are left.
pub open spec fn limit_kept(s: LoopView, m: run_loop::Move) -> bool {
    &&& within_limit(m.0)
    &&& calls_left(m.0) >= 0
    &&& m.1 is OpenModel ==> calls_left(m.0) + 1 <= calls_left(s)
    &&& calls_left(m.0) <= calls_left(s)
    &&& m.0.progress.config == s.progress.config
}

#[verifier::opaque]
spec fn step_facts(s: LoopView, reply: ReplyView) -> bool {
    let m = run_loop::next(s, reply);
    &&& m.1 !is Unexpected ==> error_told(m)
    &&& usage_kept(s.progress, m)
    &&& within_limit(s) ==> limit_kept(s, m)
}

proof fn lemma_facts_before_turn(s: LoopView, reply: ReplyView)
    requires
        s.phase is Start || s.phase is CancelCheck || s.phase is Opening || s.phase is Over,
    ensures
        step_facts(s, reply),
{
    reveal(step_facts);
}

proof fn lemma_facts_streaming(s: LoopView, reply: ReplyView)
    requires
        s.phase is Streaming,
    ensures
        step_facts(s, reply),
{
    reveal(step_facts);
    match (s.phase, reply) {
        (PhaseView::Streaming(t), ReplyView::StreamEnd) => {
            let t = crate::agent::turn::ordered_turn(t);
            let ends = crate::agent::turn::end_events(t, crate::agent::turn::turn_args(t));
            if ends.len() > 0 {
                assert(ends[0] is ToolCallEnd);
            }
        },
        _ => {},
    }
}

proof fn lemma_facts_telling(s: LoopView, reply: ReplyView)
    requires
        run_loop::well_formed(s),
        s.phase is Forwarding || s.phase is EndingCalls,
    ensures
        step_facts(s, reply),
{
    reveal(step_facts);
    match s.phase {
        PhaseView::EndingCalls(rest, _) => {
            if rest.len() > 0 {
                assert(rest[0] is ToolCallEnd);
            }
        },
        _ => {},
    }
}

proof fn lemma_facts_end_of_turn(s: LoopView, reply: ReplyView)
    requires
        s.phase is EndingTurn,
    ensures
        step_facts(s, reply),
{
    reveal(step_facts);
}

proof fn lemma_facts_hooks(s: LoopView, reply: ReplyView)
    requires
        s.phase is Hooks,
    ensures
        step_facts(s, reply),
{
    reveal(step_facts);
}

proof fn lemma_facts_gates(s: LoopView, reply: ReplyView)
    requires
        s.phase is Permission || s.phase is Asking,
    ensures
        step_facts(s, reply),
{
    reveal(step_facts);
}

proof fn lemma_facts_running(s: LoopView, reply: ReplyView)
    requires
        s.phase is RunningOne || s.phase is Joining || s.phase is Reporting,
    ensures
        step_facts(s, reply),
{
    reveal(step_facts);
}

proof fn lemma_facts_ending(s: LoopView, reply: ReplyView)
    requires
        s.phase is StopCheck || s.phase is Finishing || s.phase is ErrorHooks || s.phase is Failing,
    ensures
        step_facts(s, reply),
{
    reveal(step_facts);
}

proof fn lemma_step_facts(s: LoopView, reply: ReplyView)
    requires
        run_loop::well_formed(s),
    ensures
        step_facts(s, reply),
{
    match s.phase {
        PhaseView::Start => lemma_facts_before_turn(s, reply),
        PhaseView::CancelCheck => lemma_facts_before_turn(s, reply),
        PhaseView::Opening => lemma_facts_before_turn(s, reply),
        PhaseView::Over => lemma_facts_before_turn(s, reply),
        PhaseView::Streaming(_) => lemma_facts_streaming(s, reply),
        PhaseView::Forwarding(_) => lemma_facts_telling(s, reply),
        PhaseView::EndingCalls(_, _) => lemma_facts_telling(s, reply),
        PhaseView::EndingTurn(_, _) => lemma_facts_end_of_turn(s, reply),
        PhaseView::Hooks(_, _) => lemma_facts_hooks(s, reply),
        PhaseView::Permission(_) => lemma_facts_gates(s, reply),
        PhaseView::Asking(_) => lemma_facts_gates(s, reply),
        PhaseView::RunningOne(_, _) => lemma_facts_running(s, reply),
        PhaseView::Joining(_) => lemma_facts_running(s, reply),
        PhaseView::Reporting(_, _) => lemma_facts_running(s, reply),
        PhaseView::StopCheck(_) => lemma_facts_ending(s, reply),
        PhaseView::Finishing => lemma_facts_ending(s, reply),
        PhaseView::ErrorHooks(_, _, _) => lemma_facts_ending(s, reply),
        PhaseView::Failing(_) => lemma_facts_ending(s, reply),
    }
}

/// No event follows an error: once the caller was told of it, the run asks for nothing more, but
/// says how it ended.
pub proof fn law_nothing_follows_error(s: LoopView, replies: Seq<ReplyView>)
    requires
        s.phase is Failing || s.phase is Over,
    ensures
        forall|i: int|
            0 <= i < replies.len() ==> (#[trigger] steps(s, replies)[i]) is Done || steps(
                s,
                replies,
            )[i] is Unexpected,
        run_after(s, replies).phase is Over || run_after(s, replies).phase == s.phase,
    decreases replies.len(),
{
    if replies.len() > 0 {
        law_nothing_follows_error(s, replies.drop_last());
        lemma_steps_len(s, replies.drop_last());
    }
}

proof fn lemma_steps_len(s: LoopView, replies: Seq<ReplyView>)
    ensures
        steps(s, replies).len() == replies.len(),
    decreases replies.len(),
{
    if replies.len() > 0 {
        lemma_steps_len(s, replies.drop_last());
    }
}

/// How many more times a run can call the model, where `limit` is its limit of turns.
pub open spec fn calls_left(s: LoopView) -> int {
    let left = s.progress.config.max_turns - s.progress.turn;
    match s.phase {
        PhaseView::Start => left,
        PhaseView::CancelCheck => left,
        PhaseView::Hooks(_, ThenView::FirstTurn) => left,
        PhaseView::Hooks(_, ThenView::CallModel) => left,
        PhaseView::Opening => left - 1,
        PhaseView::Streaming(_) => left - 1,
        PhaseView::Forwarding(_) => left - 1,
        PhaseView::EndingCalls(_, _) => left - 1,
        PhaseView::Hooks(_, ThenView::EndTurn(_)) => left - 1,
        PhaseView::EndingTurn(_, _) => left - 1,
        PhaseView::Hooks(_, ThenView::Permit(_)) => left,
        PhaseView::Hooks(_, ThenView::Report(_, _)) => left,
        PhaseView::Permission(_) => left,
        PhaseView::Asking(_) => left,
        PhaseView::RunningOne(_, _) => left,
        PhaseView::Joining(_) => left,
        PhaseView::Reporting(_, _) => left,
        PhaseView::StopCheck(_) => left,
        _ => 0,
    }
}

/// Whether a turn is about to begin or under way: the limit is not yet reached then.
pub open spec fn in_turn(phase: PhaseView) -> bool {
    match phase {
        PhaseView::Start => true,
        PhaseView::CancelCheck => true,
        PhaseView::Hooks(_, ThenView::FirstTurn) => true,
        PhaseView::Hooks(_, ThenView::CallModel) => true,
        PhaseView::Opening => true,
        PhaseView::Streaming(_) => true,
        PhaseView::Forwarding(_) => true,
        PhaseView::EndingCalls(_, _) => true,
        PhaseView::Hooks(_, ThenView::EndTurn(_)) => true,
        PhaseView::EndingTurn(_, _) => true,
        _ => false,
    }
}

/// The run is within its limit of turns.
pub open spec fn within_limit(s: LoopView) -> bool {
    &&& s.progress.turn <= s.progress.config.max_turns
    &&& in_turn(s.phase) ==> s.progress.turn < s.progress.config.max_turns
}

/// The number of model calls among some steps.
pub open spec fn model_calls(all: Seq<StepView>) -> nat
    decreases all.len(),
{
    if all.len() == 0 {
        0
    } else {
        model_calls(all.drop_last()) + if all.last() is OpenModel {
            1nat
        } else {
            0nat
        }
    }
}

proof fn lemma_turn_limit(s: LoopView, replies: Seq<ReplyView>)
    requires
        run_loop::well_formed(s),
        within_limit(s),
    ensures
        run_loop::well_formed(run_after(s, replies)),
        within_limit(run_after(s, replies)),
        model_calls(steps(s, replies)) + calls_left(run_after(s, replies)) <= calls_left(s),
        run_after(s, replies).progress.config == s.progress.config,
    decreases replies.len(),
{
    if replies.len() > 0 {
        let front = replies.drop_last();
        lemma_turn_limit(s, front);
        lemma_step_facts(run_after(s, front), replies.last());
        law_moves_keep_well_formed(run_after(s, front), replies.last());
        reveal(step_facts);
        assert(steps(s, replies).drop_last() =~= steps(s, front));
    }
}

/// However the model, the tools, the hooks and the user behave, a run calls the model no more often
/// than its limit of turns allows, and never completes more turns than that.
pub proof fn law_turn_limit(config: LoopConfigView, session: SessionView, replies: Seq<ReplyView>)
    requires
        config.max_turns >= 1,
    ensures
        model_calls(steps(run_loop::new_loop(config, session), replies)) <= config.max_turns,
        run_after(run_loop::new_loop(config, session), replies).progress.turn <= config.max_turns,
{
    let s = run_loop::new_loop(config, session);
    lemma_turn_limit(s, replies);
    lemma_calls_left(run_after(s, replies));
}

proof fn lemma_calls_left(s: LoopView)
    requires
        within_limit(s),
    ensures
        calls_left(s) >= 0,
{
}

/// What the turns cost of which some steps tell.
pub open spec fn usage_told(all: Seq<StepView>) -> Usage
    decreases all.len(),
{
    if all.len() == 0 {
        crate::language_model::event::no_usage()
    } else {
        match all.last() {
            StepView::Emit { event: AgentEventView::TurnEnd { usage, .. } } => event::usage_sum(
                usage_told(all.drop_last()),
                usage,
            ),
            _ => usage_told(all.drop_last()),
        }
    }
}

/// The usage that the end of a run tells is the sum of what the turns cost, as the caller was told
/// turn by turn.
pub proof fn law_usage(config: LoopConfigView, session: SessionView, replies: Seq<ReplyView>)
    ensures
        ({
            let s = run_loop::new_loop(config, session);
            let all = steps(s, replies);
            &&& run_after(s, replies).progress.total_usage == usage_told(all)
            &&& all.len() > 0 ==> match all.last() {
                StepView::Emit { event: AgentEventView::Finish { usage, .. } } => usage == usage_told(
                    all,
                ),
                _ => true,
            }
        }),
{
    lemma_usage(run_loop::new_loop(config, session), replies);
}

proof fn lemma_usage(s: LoopView, replies: Seq<ReplyView>)
    requires
        run_loop::well_formed(s),
        s.progress.total_usage == crate::language_model::event::no_usage(),
    ensures
        run_loop::well_formed(run_after(s, replies)),
        run_after(s, replies).progress.total_usage == usage_told(steps(s, replies)),
        steps(s, replies).len() > 0 ==> match steps(s, replies).last() {
            StepView::Emit { event: AgentEventView::Finish { usage, .. } } => usage == usage_told(
                steps(s, replies),
            ),
            _ => true,
        },
    decreases replies.len(),
{
    if replies.len() > 0 {
        let front = replies.drop_last();
        lemma_usage(s, front);
        lemma_step_facts(run_after(s, front), replies.last());
        reveal(step_facts);
        law_moves_keep_well_formed(run_after(s, front), replies.last());
        assert(steps(s, replies).drop_last() =~= steps(s, front));
    }
}

/// The conversation only grows: what was said stays, in its order, and the session keeps its
/// identifier and its metadata.
pub proof fn law_session_grows(s: LoopView, replies: Seq<ReplyView>)
    ensures
        ({
            let before = s.progress.session;
            let after = run_after(s, replies).progress.session;
            &&& before.messages.len() <= after.messages.len()
            &&& after.messages.take(before.messages.len() as int) == before.messages
            &&& after.id == before.id
            &&& after.metadata == before.metadata
        }),
    decreases replies.len(),
{
    let before = s.progress.session;
    if replies.len() > 0 {
        law_session_grows(s, replies.drop_last());
        let mid = run_after(s, replies.drop_last()).progress.session;
        let after = run_after(s, replies).progress.session;
        lemma_session_step(run_after(s, replies.drop_last()), replies.last());
        assert(after.messages.take(before.messages.len() as int) =~= mid.messages.take(
            before.messages.len() as int,
        ));
    } else {
        assert(before.messages.take(before.messages.len() as int) =~= before.messages);
    }
}

#[verifier::rlimit(30)]
proof fn lemma_session_step(s: LoopView, reply: ReplyView)
    ensures
        ({
            let before = s.progress.session;
            let after = run_loop::next(s, reply).0.progress.session;
            &&& after.id == before.id
            &&& after.metadata == before.metadata
            &&& after.messages == before.messages || exists|m: MessageView|
                after.messages == #[trigger] before.messages.push(m)
        }),
{
}

/// The answers of the tools go back to the model in the order of the calls, each under the
/// identifier of its call, whichever tool was done first.
pub proof fn law_results_in_call_order(run: ToolRunView, n: int)
    requires
        0 <= n <= run.results.len(),
        forall|i: int| 0 <= i < n ==> (#[trigger] run.results[i]) is Some,
    ensures
        tool_run::result_blocks(run, n) == Seq::new(
            n as nat,
            |i: int| tool_run::result_block(run.calls[i], run.results[i]->0),
        ),
    decreases n,
{
    if n > 0 {
        law_results_in_call_order(run, n - 1);
        assert(run.results[n - 1] is Some);
    }
    assert(tool_run::result_blocks(run, n) =~= Seq::new(
        n as nat,
        |i: int| tool_run::result_block(run.calls[i], run.results[i]->0),
    ));
}

/// What the tools answered is the last message of the conversation, and reaches the model with
/// every provider: in the order of the calls, each answer under the identifier of its call.
pub proof fn law_answers_reach_the_model(p: ProgressView, run: ToolRunView)
    requires
        run.results.len() == run.calls.len(),
        forall|i: int| 0 <= i < run.results.len() ==> (#[trigger] run.results[i]) is Some,
    ensures
        ({
            let told = run_loop::close_tools(p, run).0.progress.session.messages.last();
            let blocks = Seq::new(
                run.calls.len(),
                |i: int| tool_run::result_block(run.calls[i], run.results[i]->0),
            );
            &&& told == MessageView { role: Role::Tool, content: blocks }
            &&& chat::chat_message(told) == Ok::<_, ModelErrorView>(
                blocks.map_values(|b: ContentBlockView| chat::result_message(b)),
            )
            &&& responses::input_items(told) == Ok::<_, ModelErrorView>(
                blocks.map_values(|b: ContentBlockView| responses::result_item(b)),
            )
            &&& request_map::wire_role_of(told.role) == Ok::<_, ModelErrorView>("user"@)
            &&& request_map::wire_message(told, None).content == blocks.map_values(
                |b: ContentBlockView| request_map::wire_block(b, None),
            )
        }),
{
    let blocks = Seq::new(
        run.calls.len(),
        |i: int| tool_run::result_block(run.calls[i], run.results[i]->0),
    );
    law_results_in_call_order(run, run.results.len() as int);
    chat::law_results_reach_the_model(blocks);
    responses::law_results_reach_the_model(blocks);
    let told = MessageView { role: Role::Tool, content: blocks };
    assert(request_map::wire_message(told, None).content =~= blocks.map_values(
        |b: ContentBlockView| request_map::wire_block(b, None),
    ));
}

/// A run that is cancelled while it waits for the model or for a tool fails with that, at once; so
/// does one whose caller is gone, unless it is failing already.
pub proof fn law_cancelled(s: LoopView)
    ensures
        s.phase is Opening || s.phase is Streaming ==> run_loop::next(s, ReplyView::Cancelled)
            == run_loop::fail(s.progress, AgentErrorView::Cancelled),
        s.phase is RunningOne || s.phase is Joining ==> run_loop::next(s, ReplyView::Cancelled)
            == run_loop::fail_at(
            s.progress,
            (tools_of(s.phase)->0).turn,
            AgentErrorView::Cancelled,
        ),
        s.phase is CancelCheck ==> run_loop::next(s, ReplyView::CancelState(true))
            == run_loop::fail(s.progress, AgentErrorView::Cancelled),
        s.phase is Forwarding || s.phase is EndingCalls || s.phase is EndingTurn || s.phase is Finishing
            ==> run_loop::next(s, ReplyView::Sent(false)) == run_loop::fail(
            s.progress,
            AgentErrorView::Cancelled,
        ),
        s.phase is Reporting ==> run_loop::next(s, ReplyView::Sent(false)) == run_loop::fail_at(
            s.progress,
            (tools_of(s.phase)->0).turn,
            AgentErrorView::Cancelled,
        ),
{
}

/// All calls are past the gates and have a result.
pub open spec fn all_answered(run: ToolRunView) -> bool {
    run.results.len() == run.calls.len() && forall|i: int|
        0 <= i < run.results.len() ==> (#[trigger] run.results[i]) is Some
}

/// The tools are run in turn, and results are told once all are there.
pub open spec fn answers_in_turn(phase: PhaseView) -> bool {
    match phase {
        PhaseView::RunningOne(run, at) => forall|i: int|
            0 <= i < at ==> (#[trigger] run.results[i]) is Some,
        PhaseView::Reporting(run, _) => all_answered(run),
        PhaseView::Hooks(_, ThenView::Report(run, _)) => all_answered(run),
        _ => true,
    }
}

/// Whether a message answers some calls: one result for each, in their order.
pub open spec fn answers(m: MessageView, calls: Seq<ToolUseView>) -> bool {
    &&& m.role == Role::Tool
    &&& m.content.len() == calls.len()
    &&& forall|i: int|
        0 <= i < calls.len() ==> (#[trigger] m.content[i]) is ToolResult
            && m.content[i]->tool_use_id == calls[i].id
}

/// Whether some calls are answered where their run of tools is done: the conversation is as it was,
/// or has one more message, which answers them; and it has that where the run goes on to the stop
/// condition or to the next turn.
pub open spec fn answered_if_done(
    before: SessionView,
    after: LoopView,
    calls: Seq<ToolUseView>,
) -> bool {
    let messages = after.progress.session.messages;
    let told = messages.drop_last() == before.messages && answers(messages.last(), calls);
    &&& after.progress.session == before || told
    &&& after.phase is StopCheck || after.phase is CancelCheck ==> told
}

pub(crate) proof fn lemma_skipped(results: Seq<Option<ToolResultView>>, from: int, done: bool)
    requires
        0 <= from <= results.len(),
    ensures
        forall|i: int|
            from <= i < tool_run::next_call(results, from, done) ==> (#[trigger] results[i] is Some)
                != done,
    decreases results.len() - from,
{
    if from < results.len() && (results[from] is Some) != done {
        lemma_skipped(results, from + 1, done);
    }
}

proof fn lemma_report(p: ProgressView, run: ToolRunView, from: int)
    requires
        all_answered(run),
        0 <= from <= run.results.len(),
    ensures
        answers_in_turn(run_loop::report(p, run, from).0.phase),
        answered_if_done(p.session, run_loop::report(p, run, from).0, run.calls),
{
    law_results_in_call_order(run, run.results.len() as int);
    let messages = run_loop::close_tools(p, run).0.progress.session.messages;
    assert(messages.drop_last() =~= p.session.messages);
}

proof fn lemma_run_next(p: ProgressView, run: ToolRunView, from: int)
    requires
        run.results.len() == run.calls.len(),
        0 <= from <= run.results.len(),
        forall|i: int| 0 <= i < from ==> (#[trigger] run.results[i]) is Some,
    ensures
        answers_in_turn(run_loop::run_next(p, run, from).0.phase),
        answered_if_done(p.session, run_loop::run_next(p, run, from).0, run.calls),
{
    lemma_next_call(run.results, from, false);
    lemma_skipped(run.results, from, false);
    if tool_run::next_call(run.results, from, false) >= run.results.len() {
        lemma_report(p, run, 0);
    }
}

proof fn lemma_gate_answers(p: ProgressView, run: ToolRunView)
    requires
        run.results.len() <= run.calls.len(),
    ensures
        answers_in_turn(run_loop::gate_next(p, run).0.phase),
        answered_if_done(p.session, run_loop::gate_next(p, run).0, run.calls),
{
    lemma_run_next(p, tool_run::with_rest_allowed(run), 0);
    if run.results.len() == run.calls.len() {
        lemma_run_next(p, run, 0);
    }
}

/// Every tool call of a turn is answered: where the tools that run at the same time are only said
/// to be done once all have returned, the run goes on to the stop condition, or to the next turn,
/// with one more message, which holds one result for each call, in order.
pub proof fn law_every_call_is_answered(s: LoopView, reply: ReplyView)
    requires
        run_loop::well_formed(s),
        answers_in_turn(s.phase),
        (s.phase matches PhaseView::Joining(run) && reply is AllJoined) ==> all_answered(
            tools_of(s.phase)->0,
        ),
    ensures
        answers_in_turn(run_loop::next(s, reply).0.phase),
        tools_of(s.phase) matches Some(run) ==> answered_if_done(
            s.progress.session,
            run_loop::next(s, reply).0,
            run.calls,
        ),
{
    let p = s.progress;
    match (s.phase, reply) {
        (PhaseView::Hooks(chain, ThenView::Permit(run)), ReplyView::Hook(outcome)) => {
            match crate::agent::hook::chain_next(chain, p.config.hooks, outcome) {
                Ok(_) => {},
                Err(flow) => {
                    match tool_run::hook_gate(run_loop::at_hand(run).name, flow) {
                        HookGateView::Refused(r) => {
                            lemma_gate_answers(p, tool_run::with_gated(run, Some(r)));
                        },
                        HookGateView::CheckPermission => {
                            lemma_gate_answers(p, tool_run::with_gated(run, None));
                        },
                        _ => {},
                    }
                },
            }
        },
        (PhaseView::Hooks(_, ThenView::Report(run, at)), ReplyView::Hook(_)) => {
            lemma_report(p, run, at + 1);
        },
        (PhaseView::EndingTurn(reason, uses), ReplyView::Sent(_)) => {
            let q = ProgressView { turn: event::capped_sum(p.turn, 1), ..p };
            lemma_gate_answers(q, tool_run::new_tool_run((q.turn - 1) as u32, reason, uses));
        },
        (PhaseView::Permission(run), ReplyView::Permission(d)) => {
            match tool_run::policy_gate(run_loop::at_hand(run).name, d, p.config.can_ask) {
                PolicyGateView::Settled(r) => {
                    lemma_gate_answers(p, tool_run::with_gated(run, r));
                },
                _ => {},
            }
        },
        (PhaseView::Asking(run), ReplyView::Permission(d)) => {
            let r = tool_run::verdict(run_loop::at_hand(run).name, d);
            lemma_gate_answers(p, tool_run::with_gated(run, r));
        },
        (PhaseView::RunningOne(run, at), ReplyView::ToolReturned(Ok(r))) => {
            lemma_run_next(p, tool_run::with_result(run, at, r), at + 1);
        },
        (PhaseView::Joining(run), ReplyView::AllJoined) => {
            lemma_report(p, run, 0);
        },
        (PhaseView::Reporting(run, at), ReplyView::Sent(_)) => {
            lemma_report(p, run, at + 1);
        },
        _ => {},
    }
}

/// It makes no difference which of two tools is done first.
pub proof fn law_join_order(
    run: ToolRunView,
    i: int,
    a: ToolResultView,
    j: int,
    b: ToolResultView,
)
    requires
        0 <= i < run.results.len(),
        0 <= j < run.results.len(),
        i != j,
    ensures
        tool_run::with_result(tool_run::with_result(run, i, a), j, b) == tool_run::with_result(
            tool_run::with_result(run, j, b),
            i,
            a,
        ),
{
    assert(run.results.update(i, Some(a)).update(j, Some(b)) =~= run.results.update(
        j,
        Some(b),
    ).update(i, Some(a)));
}

/// The calls at the gates and behind them, in the phases that have some.
pub open spec fn tools_of(phase: PhaseView) -> Option<ToolRunView> {
    match phase {
        PhaseView::Hooks(_, ThenView::Permit(run)) => Some(run),
        PhaseView::Hooks(_, ThenView::Report(run, _)) => Some(run),
        PhaseView::Permission(run) => Some(run),
        PhaseView::Asking(run) => Some(run),
        PhaseView::RunningOne(run, _) => Some(run),
        PhaseView::Joining(run) => Some(run),
        PhaseView::Reporting(run, _) => Some(run),
        _ => None,
    }
}

/// What a move may do to the calls of a turn where there is a permission policy: the number of calls
/// past the gates grows by one at a time, the one that is new has no result yet only if the reply
/// was a permission, and a result that is there stays.
pub open spec fn gates_kept(before: PhaseView, reply: ReplyView, after: PhaseView) -> bool {
    match (tools_of(before), tools_of(after)) {
        (Some(run), Some(after)) => {
            &&& after.calls == run.calls
            &&& run.results.len() <= after.results.len() <= run.results.len() + 1
            &&& after.results.len() > run.results.len() && after.results.last() is None ==> reply
                == ReplyView::Permission(DecisionView::Allow)
            &&& forall|i: int|
                0 <= i < run.results.len() && run.results[i] is Some ==> #[trigger] after.results[i]
                    == run.results[i]
        },
        (None, Some(after)) => after.results.len() == 0,
        _ => true,
    }
}

proof fn lemma_gates_before_tools(s: LoopView, reply: ReplyView)
    requires
        s.progress.config.has_policy,
        tools_of(s.phase) is None,
    ensures
        gates_kept(s.phase, reply, run_loop::next(s, reply).0.phase),
{
}

proof fn lemma_gates_at_hand(s: LoopView, reply: ReplyView)
    requires
        run_loop::well_formed(s),
        s.progress.config.has_policy,
        s.phase is Hooks || s.phase is Permission || s.phase is Asking,
    ensures
        gates_kept(s.phase, reply, run_loop::next(s, reply).0.phase),
{
}

proof fn lemma_gates_behind(s: LoopView, reply: ReplyView)
    requires
        run_loop::well_formed(s),
        s.phase is RunningOne || s.phase is Joining || s.phase is Reporting,
    ensures
        gates_kept(s.phase, reply, run_loop::next(s, reply).0.phase),
{
}

/// Where there is a permission policy, a call comes past the gates without a stand-in for its result
/// only where the policy or the user allowed it.
pub proof fn law_only_permitted_calls_are_ready(s: LoopView, reply: ReplyView)
    requires
        run_loop::well_formed(s),
        s.progress.config.has_policy,
    ensures
        gates_kept(s.phase, reply, run_loop::next(s, reply).0.phase),
{
    if tools_of(s.phase) is None {
        lemma_gates_before_tools(s, reply);
    } else if s.phase is Hooks || s.phase is Permission || s.phase is Asking {
        lemma_gates_at_hand(s, reply);
    } else {
        lemma_gates_behind(s, reply);
    }
}

/// Where there is no permission policy, every call is allowed that no hook refused: neither a policy
/// nor the user is asked, and a call that the hooks let pass, or that meets no hook, goes on as one
/// that a policy allowed.
pub proof fn law_no_policy_allows_all(
    s: LoopView,
    reply: ReplyView,
    run: ToolRunView,
    request: Option<crate::language_model::request::RequestView>,
)
    requires
        run_loop::well_formed(s),
        !s.progress.config.has_policy,
        run_loop::has_call(run),
    ensures
        run_loop::next(s, reply).1 !is CheckPermission,
        run_loop::next(s, reply).1 !is AskUser,
        ({
            let allowed = tool_run::with_gated(
                run,
                tool_run::verdict(run_loop::at_hand(run).name, DecisionView::Allow),
            );
            let on = run_loop::gate_next(s.progress, allowed);
            &&& run_loop::after_hooks(
                s.progress,
                ThenView::Permit(run),
                HookFlowView::Continue(request),
            ) == on
            &&& s.progress.config.hooks == 0 ==> run_loop::gate_next(s.progress, run) == on
        }),
{
    let allowed = tool_run::with_gated(run, None);
    assert(tool_run::with_rest_allowed(allowed).results =~= tool_run::with_rest_allowed(
        run,
    ).results);
    if !run_loop::has_call(allowed) {
        assert(allowed.results =~= tool_run::with_rest_allowed(run).results);
    }
}

/// Where there is no stop condition, none is asked, and a run whose tools are done goes on as one
/// whose stop condition did not stop it.
pub proof fn law_no_stop_condition_goes_on(s: LoopView, reply: ReplyView, run: ToolRunView)
    requires
        !s.progress.config.has_stop,
    ensures
        run_loop::next(s, reply).1 !is EvaluateStop,
        run_loop::close_tools(s.progress, run) == run_loop::next(
            LoopView {
                progress: run_loop::answered(s.progress, run),
                phase: PhaseView::StopCheck(run.reason),
            },
            ReplyView::Stop(false),
        ),
{
}

/// An error that comes while the tools of a turn are looked at or run is told to the hooks with that
/// turn: the one whose calls they are, though the turn is complete by then.
pub proof fn law_tool_errors_tell_the_turn(s: LoopView, reply: ReplyView)
    ensures
        ({
            let after = run_loop::next(s, reply).0;
            after.phase matches PhaseView::ErrorHooks(_, turn, _) ==> {
                &&& tools_of(s.phase) matches Some(run) ==> {
                    after.progress.session == s.progress.session ==> turn == run.turn
                }
                &&& s.phase is EndingTurn && s.progress.turn < u32::MAX ==> turn == s.progress.turn
            }
        }),
{
    assert forall|run: ToolRunView|
        (#[trigger] run_loop::answered(s.progress, run)).session != s.progress.session by {
        assert(run_loop::answered(s.progress, run).session.messages.len()
            == s.progress.session.messages.len() + 1);
    }
}

/// A tool is only started if its call is past the gates and has no result, neither from an earlier
/// run of it nor as a stand-in for a refusal.
pub proof fn law_only_ready_calls_run(s: LoopView, reply: ReplyView)
    requires
        run_loop::well_formed(s),
    ensures
        ({
            let (after, step) = run_loop::next(s, reply);
            match step {
                StepView::RunTool { call } => match tools_of(after.phase) {
                    Some(run) => {
                        &&& run.results.len() == run.calls.len()
                        &&& 0 <= call.index < run.results.len()
                        &&& run.results[call.index] is None
                        &&& call == tool_run::ready_call(call.index, run.calls[call.index])
                    },
                    None => false,
                },
                StepView::SpawnTools { calls } => match tools_of(after.phase) {
                    Some(run) => {
                        &&& run.results.len() == run.calls.len()
                        &&& calls == tool_run::ready_list(run, run.results.len() as int)
                        &&& after.progress.config.parallel_tool_calls
                        &&& calls.len() > 1
                    },
                    None => false,
                },
                _ => true,
            }
        }),
{
    match s.phase {
        PhaseView::RunningOne(run, at) => {
            match reply {
                ReplyView::ToolReturned(Ok(r)) => {
                    lemma_next_call(tool_run::with_result(run, at, r).results, at + 1, false);
                },
                _ => {},
            }
        },
        PhaseView::Hooks(_, ThenView::Permit(run)) => {
            lemma_ready_after_gate(run);
        },
        PhaseView::Permission(run) => {
            lemma_ready_after_gate(run);
        },
        PhaseView::Asking(run) => {
            lemma_ready_after_gate(run);
        },
        PhaseView::EndingTurn(reason, uses) => {
            let turn = (event::capped_sum(s.progress.turn, 1) - 1) as u32;
            let run = tool_run::new_tool_run(turn, reason, uses);
            lemma_next_call(tool_run::with_rest_allowed(run).results, 0, false);
        },
        _ => {},
    }
}

proof fn lemma_ready_after_gate(run: ToolRunView)
    ensures
        forall|r: Option<ToolResultView>|
            ({
                let results = (#[trigger] tool_run::with_gated(run, r)).results;
                let i = tool_run::next_call(results, 0, false);
                0 <= i <= results.len() && (i < results.len() ==> results[i] is None)
            }),
{
    assert forall|r: Option<ToolResultView>|
        ({
            let results = (#[trigger] tool_run::with_gated(run, r)).results;
            let i = tool_run::next_call(results, 0, false);
            0 <= i <= results.len() && (i < results.len() ==> results[i] is None)
        }) by {
        lemma_next_call(tool_run::with_gated(run, r).results, 0, false);
    }
}

/// The calls that are started are those without a result, in the order of the calls.
pub proof fn law_ready_calls(run: ToolRunView, n: int)
    requires
        0 <= n <= run.results.len(),
    ensures
        forall|k: int|
            0 <= k < tool_run::ready_calls(run, n).len() ==> ({
                let (i, call) = #[trigger] tool_run::ready_calls(run, n)[k];
                0 <= i < n && run.results[i] is None && call == run.calls[i]
            }),
        forall|j: int, k: int|
            0 <= j < k < tool_run::ready_calls(run, n).len() ==> (#[trigger] tool_run::ready_calls(
                run,
                n,
            )[j]).0 < (#[trigger] tool_run::ready_calls(run, n)[k]).0,
        forall|i: int|
            0 <= i < n && (#[trigger] run.results[i]) is None ==> tool_run::ready_calls(
                run,
                n,
            ).contains((i, run.calls[i])),
    decreases n,
{
    if n > 0 {
        law_ready_calls(run, n - 1);
        let front = tool_run::ready_calls(run, n - 1);
        let all = tool_run::ready_calls(run, n);
        assert forall|i: int| 0 <= i < n && (#[trigger] run.results[i]) is None implies all.contains(
            (i, run.calls[i]),
        ) by {
            if i < n - 1 {
                let k = choose|k: int| 0 <= k < front.len() && front[k] == (i, run.calls[i]);
                assert(all[k] == front[k]);
            } else {
                assert(all.last() == (i, run.calls[i]));
                assert(all[all.len() - 1] == (i, run.calls[i]));
            }
        }
    }
}

/// A tool that is not registered stops the run before any hook, policy or tool is asked: exactly
/// then the check before the tools finds an error.
pub proof fn law_preflight(
    calls: Seq<crate::agent::turn::ToolUseView>,
    specs: Seq<crate::language_model::tool::ToolSpecView>,
)
    ensures
        tool_run::preflight_error(calls, specs) is None <==> forall|i: int|
            0 <= i < calls.len() ==> tool_run::registered(specs, (#[trigger] calls[i]).name),
    decreases calls.len(),
{
    if calls.len() > 0 {
        let rest = calls.drop_first();
        law_preflight(rest, specs);
        assert(forall|i: int| 0 <= i < rest.len() ==> rest[i] == calls[i + 1]);
        if tool_run::preflight_error(rest, specs) is None && tool_run::registered(
            specs,
            calls[0].name,
        ) {
            assert forall|i: int| 0 <= i < calls.len() implies tool_run::registered(
                specs,
                (#[trigger] calls[i]).name,
            ) by {
                if i > 0 {
                    assert(rest[i - 1] == calls[i]);
                }
            }
        }
    }
}

/// The user's input is put to the hooks at the start of a run and never again: only the first move
/// begins it, and only where there is input.
pub proof fn law_prompt_once(s: LoopView, reply: ReplyView)
    ensures
        ({
            let (after, step) = run_loop::next(s, reply);
            match step {
                StepView::CallHook { index, ctx } => ctx.event is UserPromptSubmit ==> {
                    ||| s.phase is Start && index == 0 && s.progress.config.initial_input.len() > 0
                    ||| s.phase matches PhaseView::Hooks(chain, _) && chain.event is UserPromptSubmit
                        && index == chain.called + 1
                },
                _ => true,
            }
        }),
        run_loop::next(s, reply).0.phase is Start ==> s.phase is Start && run_loop::next(s, reply).1
            is Unexpected,
{
}

/// An error is put to every hook, in order, whatever the hooks answer; the caller is told after the
/// last.
pub proof fn law_every_hook_hears_of_error(
    p: ProgressView,
    turn: u32,
    e: AgentErrorView,
    called: nat,
    outcomes: Seq<HookOutcomeView>,
)
    requires
        called + outcomes.len() == p.config.hooks,
        outcomes.len() > 0,
    ensures
        ({
            let s = LoopView { progress: p, phase: PhaseView::ErrorHooks(e, turn, called) };
            let replies = outcomes.map_values(|o: HookOutcomeView| ReplyView::Hook(o));
            let all = steps(s, replies);
            &&& run_after(s, replies) == (LoopView { progress: p, phase: PhaseView::Failing(e) })
            &&& all.len() == outcomes.len()
            &&& all.last() == (StepView::Emit { event: event::error_event_of(e) })
            &&& forall|i: int|
                0 <= i < all.len() - 1 ==> #[trigger] all[i] == (StepView::CallHook {
                    index: called + 1 + i,
                    ctx: run_loop::error_ctx(p, turn, e),
                })
        }),
{
    let s = LoopView { progress: p, phase: PhaseView::ErrorHooks(e, turn, called) };
    let replies = outcomes.map_values(|o: HookOutcomeView| ReplyView::Hook(o));
    let front = replies.drop_last();
    lemma_error_hooks(p, turn, e, called, front);
    assert(replies.last() is Hook);
    assert(steps(s, replies).drop_last() =~= steps(s, front));
    lemma_steps_len(s, replies);
    lemma_steps_len(s, front);
}

proof fn lemma_error_hooks(
    p: ProgressView,
    turn: u32,
    e: AgentErrorView,
    called: nat,
    replies: Seq<ReplyView>,
)
    requires
        called + replies.len() < p.config.hooks,
        forall|i: int| 0 <= i < replies.len() ==> (#[trigger] replies[i]) is Hook,
    ensures
        ({
            let s = LoopView { progress: p, phase: PhaseView::ErrorHooks(e, turn, called) };
            let all = steps(s, replies);
            &&& run_after(s, replies) == (LoopView {
                progress: p,
                phase: PhaseView::ErrorHooks(e, turn, called + replies.len()),
            })
            &&& forall|i: int|
                0 <= i < all.len() ==> #[trigger] all[i] == (StepView::CallHook {
                    index: called + 1 + i,
                    ctx: run_loop::error_ctx(p, turn, e),
                })
        }),
    decreases replies.len(),
{
    let s = LoopView { progress: p, phase: PhaseView::ErrorHooks(e, turn, called) };
    if replies.len() > 0 {
        let front = replies.drop_last();
        lemma_error_hooks(p, turn, e, called, front);
        lemma_steps_len(s, front);
        assert(replies.last() is Hook);
    }
}

} // verus!
