//! What a run does next.

use crate::agent::error;
use crate::agent::error::AgentErrorView;
use crate::agent::event::AgentEventView;
use crate::agent::hook::{HookChainView, HookEventView, HookOutcomeView};
use crate::agent::permission::DecisionView;
use crate::agent::run_laws;
use crate::agent::run_loop;
use crate::agent::run_loop::{LoopView, PhaseView, ProgressView, ReplyView, StepView, ThenView};
use crate::agent::tool::ToolResultView;
use crate::agent::tool_run;
use crate::agent::tool_run::ToolRunView;
use crate::agent::turn;
use crate::agent::turn::{ToolUseView, TurnOutcomeView, TurnView};
use crate::json::JsonView;
use crate::language_model::error::ModelErrorView;
use crate::language_model::event::{FinishReason, ModelEventView, Usage};
use crate::language_model::message::{ContentBlockView, Role};
use vstd::prelude::*;

verus! {

/// The error with which a run is failing.
pub open spec fn failing_with(s: LoopView) -> Option<AgentErrorView> {
    match s.phase {
        PhaseView::ErrorHooks(e, _, _) => Some(e),
        PhaseView::Failing(e) => Some(e),
        _ => None,
    }
}

/// Whether a move calls the first hook with an event, where there are hooks.
pub open spec fn puts_to_hooks(m: run_loop::Move, turn: u32, event: HookEventView) -> bool {
    &&& m.1 matches StepView::CallHook { index, ctx }
    &&& index == 0
    &&& ctx.turn == turn
    &&& ctx.event == event
    &&& m.0.phase matches PhaseView::Hooks(chain, _) && chain.called == 0
}

/// A run begins with the input of the user, which goes to the hooks where there are any, and then
/// with the first turn.
pub proof fn law_beginning(s: LoopView)
    requires
        s.phase is Start,
    ensures
        ({
            let m = run_loop::next(s, ReplyView::Begin);
            &&& m.0.progress == s.progress
            &&& if s.progress.config.hooks > 0 && s.progress.config.initial_input.len() > 0 {
                puts_to_hooks(
                    m,
                    s.progress.turn,
                    HookEventView::UserPromptSubmit { input: s.progress.config.initial_input },
                )
            } else {
                m.1 is CheckCancel && m.0.phase is CancelCheck
            }
        }),
{
}

/// A turn begins with the call of the model, which the hooks see first, unless the run was
/// cancelled. A stream that opens is read, and one that does not ends the run.
pub proof fn law_model_call(s: LoopView, e: ModelErrorView)
    ensures
        s.phase is CancelCheck ==> {
            let m = run_loop::next(s, ReplyView::CancelState(false));
            if s.progress.config.hooks > 0 {
                &&& m.1 matches StepView::CallHook { index, ctx }
                &&& index == 0
                &&& ctx.turn == s.progress.turn
                &&& ctx.event is PreModel
                &&& m.0.phase matches PhaseView::Hooks(_, ThenView::CallModel)
            } else {
                m.1 is OpenModel && m.0.phase is Opening
            }
        },
        s.phase is CancelCheck ==> failing_with(
            run_loop::next(s, ReplyView::CancelState(true)).0,
        ) == Some(AgentErrorView::Cancelled),
        s.phase is Opening ==> {
            let m = run_loop::next(s, ReplyView::Opened(Ok(())));
            &&& m.1 is PollModel
            &&& m.0.phase matches PhaseView::Streaming(t) && t == turn::new_turn(s.progress.turn)
        },
        s.phase is Opening ==> failing_with(run_loop::next(s, ReplyView::Opened(Err(e))).0) == Some(
            AgentErrorView::Provider(e),
        ),
{
}

/// The stream is passed on to the caller as it comes, piece by piece, and read to its end; an error
/// in it ends the run.
pub proof fn law_stream_is_passed_on(s: LoopView, e: ModelErrorView)
    requires
        s.phase is Streaming,
    ensures
        ({
            let t = s.phase->Streaming_0;
            &&& failing_with(run_loop::next(s, ReplyView::Event(Err(e))).0) == Some(
                AgentErrorView::Provider(e),
            )
            &&& forall|message: Seq<char>|
                failing_with(
                    (#[trigger] run_loop::next(
                        s,
                        ReplyView::Event(Ok(ModelEventView::Error { message })),
                    )).0,
                ) == Some(AgentErrorView::Provider(ModelErrorView::Other(message)))
            &&& forall|delta: Seq<char>|
                (#[trigger] run_loop::next(
                    s,
                    ReplyView::Event(Ok(ModelEventView::TextDelta { delta })),
                )).1 == (StepView::Emit {
                    event: AgentEventView::TextDelta { turn: t.turn, delta },
                })
            &&& forall|delta: Seq<char>|
                (#[trigger] run_loop::next(
                    s,
                    ReplyView::Event(Ok(ModelEventView::ReasoningDelta { delta })),
                )).1 == (StepView::Emit {
                    event: AgentEventView::ReasoningDelta { turn: t.turn, delta },
                })
            &&& forall|reason: FinishReason, usage: Usage|
                (#[trigger] run_loop::next(
                    s,
                    ReplyView::Event(Ok(ModelEventView::Finish { reason, usage })),
                )).1 is PollModel
        }),
{
}

/// Once the caller took an event, the stream is read on.
pub proof fn law_reading_goes_on(s: LoopView)
    requires
        s.phase is Forwarding,
    ensures
        ({
            let m = run_loop::next(s, ReplyView::Sent(true));
            m.1 is PollModel && m.0.phase == PhaseView::Streaming(s.phase->Forwarding_0)
        }),
{
}

/// Two counts added up, as far as a number goes.
pub open spec fn adds_up(sum: u32, a: u32, b: u32) -> bool {
    if a + b <= u32::MAX {
        sum == a + b
    } else {
        sum == u32::MAX
    }
}

/// Whether a move ends a turn with its outcome: the assistant's message joins the conversation, what
/// the turn cost is added up, and the caller is told.
pub open spec fn ends_turn(p: ProgressView, o: TurnOutcomeView, m: run_loop::Move) -> bool {
    &&& m.1 == StepView::Emit {
        event: AgentEventView::TurnEnd { turn: p.turn, reason: o.finish_reason, usage: o.usage },
    }
    &&& m.0.phase == PhaseView::EndingTurn(o.finish_reason, o.tool_uses)
    &&& m.0.progress.session.messages == p.session.messages.push(o.assistant_message)
    &&& m.0.progress.session.id == p.session.id
    &&& m.0.progress.turn == p.turn
    &&& adds_up(
        m.0.progress.total_usage.input_tokens,
        p.total_usage.input_tokens,
        o.usage.input_tokens,
    )
    &&& adds_up(
        m.0.progress.total_usage.output_tokens,
        p.total_usage.output_tokens,
        o.usage.output_tokens,
    )
    &&& adds_up(
        m.0.progress.total_usage.cached_input_tokens,
        p.total_usage.cached_input_tokens,
        o.usage.cached_input_tokens,
    )
}

/// At the end of a stream the ends of the calls are told, one by one; then the outcome of the turn
/// goes to the hooks, where there are any, and the turn ends with it. Arguments that cannot be read
/// end the run.
pub proof fn law_turn_ends(s: LoopView, o: TurnOutcomeView, e: AgentErrorView)
    ensures
        s.phase == PhaseView::EndingCalls(Seq::empty(), Ok(o)) ==> {
            let m = run_loop::next(s, ReplyView::Sent(true));
            if s.progress.config.hooks > 0 {
                puts_to_hooks(
                    m,
                    s.progress.turn,
                    HookEventView::PostModel { message: o.assistant_message, usage: o.usage },
                ) && m.0.phase->Hooks_1 == ThenView::EndTurn(o)
            } else {
                ends_turn(s.progress, o, m)
            }
        },
        s.phase == PhaseView::EndingCalls(Seq::empty(), Err(e)) ==> failing_with(
            run_loop::next(s, ReplyView::Sent(true)).0,
        ) == Some(e),
        (s.phase matches PhaseView::Hooks(chain, ThenView::EndTurn(x)) && x == o && chain.called + 1
            >= s.progress.config.hooks) ==> ends_turn(
            s.progress,
            o,
            run_loop::next(s, ReplyView::Hook(HookOutcomeView::Continue)),
        ),
{
}

/// The ends of the calls are told in order.
pub proof fn law_call_ends_are_told(
    s: LoopView,
    rest: Seq<AgentEventView>,
    result: Result<TurnOutcomeView, AgentErrorView>,
)
    requires
        s.phase == PhaseView::EndingCalls(rest, result),
        rest.len() > 0,
    ensures
        ({
            let m = run_loop::next(s, ReplyView::Sent(true));
            &&& m.1 == StepView::Emit { event: rest[0] }
            &&& m.0.phase == PhaseView::EndingCalls(rest.drop_first(), result)
            &&& m.0.progress == s.progress
        }),
{
}

/// A stream that is over gives the outcome of the turn that it made: the ends of its calls are told
/// first, and then the outcome counts.
pub proof fn law_stream_end(s: LoopView, t: TurnView)
    requires
        s.phase == PhaseView::Streaming(t),
    ensures
        ({
            let ordered = turn::ordered_turn(t);
            let ends = turn::end_events(ordered, turn::turn_args(ordered));
            let result = turn::turn_outcome(ordered, turn::turn_args(ordered));
            let m = run_loop::next(s, ReplyView::StreamEnd);
            if ends.len() > 0 {
                &&& m.1 == StepView::Emit { event: ends[0] }
                &&& m.0.phase == PhaseView::EndingCalls(ends.drop_first(), result)
            } else {
                m == run_loop::next(
                    LoopView {
                        progress: s.progress,
                        phase: PhaseView::EndingCalls(Seq::empty(), result),
                    },
                    ReplyView::Sent(true),
                )
            }
        }),
{
}

/// Whether a move ends the run well: the hooks hear of it, where there are any, and the caller is
/// told, with the number of turns, the reason and what all turns cost.
pub open spec fn ends_run(p: ProgressView, reason: FinishReason, m: run_loop::Move) -> bool {
    if p.config.hooks > 0 {
        &&& puts_to_hooks(
            m,
            p.turn,
            HookEventView::OnFinish { turns: p.turn, reason, usage: p.total_usage },
        )
        &&& m.0.phase->Hooks_1 == ThenView::Finish(reason)
        &&& m.0.progress == p
    } else {
        tells_end(p, reason, m)
    }
}

/// Whether a move tells the caller that the run is over.
pub open spec fn tells_end(p: ProgressView, reason: FinishReason, m: run_loop::Move) -> bool {
    &&& m.1 == StepView::Emit {
        event: AgentEventView::Finish { turns: p.turn, reason, usage: p.total_usage },
    }
    &&& m.0.phase is Finishing
    &&& m.0.progress == p
}

/// A turn without tool calls is the last: the run ends well with its reason. A call of a tool that
/// is not registered ends the run badly, with the name of the first such tool.
pub proof fn law_after_the_turn(s: LoopView, reason: FinishReason, uses: Seq<ToolUseView>)
    requires
        s.phase == PhaseView::EndingTurn(reason, uses),
        s.progress.turn < u32::MAX,
    ensures
        ({
            let m = run_loop::next(s, ReplyView::Sent(true));
            let p = ProgressView { turn: (s.progress.turn + 1) as u32, ..s.progress };
            let specs = s.progress.config.tool_specs;
            &&& uses.len() == 0 ==> ends_run(p, reason, m)
            &&& forall|k: int|
                0 <= k < uses.len() && !tool_run::registered(specs, (#[trigger] uses[k]).name) && (
                forall|j: int|
                    0 <= j < k ==> tool_run::registered(specs, (#[trigger] uses[j]).name))
                    ==> names_tool(failing_with(m.0), uses[k].name)
            &&& uses.len() > 0 && (forall|k: int|
                0 <= k < uses.len() ==> tool_run::registered(specs, (#[trigger] uses[k]).name))
                ==> failing_with(m.0) is None && m.0.progress == p && looks_at_tools(
                m,
                s.progress.turn,
                reason,
                uses,
            )
        }),
{
    let specs = s.progress.config.tool_specs;
    lemma_preflight(uses, specs);
    let run = tool_run::new_tool_run(s.progress.turn, reason, uses);
    let rest = tool_run::with_rest_allowed(run);
    if uses.len() > 0 {
        assert(rest.results[0] is None);
    }
}

/// Whether an error is that of the tool with a name.
pub open spec fn names_tool(e: Option<AgentErrorView>, tool: Seq<char>) -> bool {
    e matches Some(AgentErrorView::Tool { name, .. }) && name == tool
}

/// Whether a move turns to the tool calls of a turn: with hooks or a policy the first call comes to
/// them, and without either the tools are started.
pub open spec fn looks_at_tools(
    m: run_loop::Move,
    turn: u32,
    reason: FinishReason,
    uses: Seq<ToolUseView>,
) -> bool {
    let c = m.0.progress.config;
    &&& run_laws::tools_of(m.0.phase) matches Some(run)
    &&& run.calls == uses
    &&& run.reason == reason
    &&& run.turn == turn
    &&& if c.hooks > 0 {
        puts_to_hooks(
            m,
            turn,
            HookEventView::PreToolUse {
                tool_use_id: uses[0].id,
                name: uses[0].name,
                arguments: uses[0].arguments,
            },
        ) && run.results.len() == 0
    } else if c.has_policy {
        &&& m.1 == StepView::CheckPermission { name: uses[0].name, arguments: uses[0].arguments }
        &&& m.0.phase is Permission
        &&& run.results.len() == 0
    } else {
        &&& m.1 is RunTool || m.1 is SpawnTools
        &&& run.results.len() == uses.len()
    }
}

proof fn lemma_preflight(
    calls: Seq<ToolUseView>,
    specs: Seq<crate::language_model::tool::ToolSpecView>,
)
    ensures
        forall|k: int|
            0 <= k < calls.len() && !tool_run::registered(specs, (#[trigger] calls[k]).name) && (
            forall|j: int| 0 <= j < k ==> tool_run::registered(specs, (#[trigger] calls[j]).name))
                ==> names_tool(tool_run::preflight_error(calls, specs), calls[k].name),
        (forall|k: int|
            0 <= k < calls.len() ==> tool_run::registered(specs, (#[trigger] calls[k]).name))
            ==> tool_run::preflight_error(calls, specs) is None,
    decreases calls.len(),
{
    if calls.len() > 0 {
        let rest = calls.drop_first();
        lemma_preflight(rest, specs);
        assert(forall|i: int| 0 <= i < rest.len() ==> rest[i] == calls[i + 1]);
        assert forall|k: int|
            0 <= k < calls.len() && !tool_run::registered(specs, (#[trigger] calls[k]).name) && (
            forall|j: int|
                0 <= j < k ==> tool_run::registered(specs, (
                #[trigger] calls[j]).name)) implies names_tool(
            tool_run::preflight_error(calls, specs),
            calls[k].name,
        ) by {
            if k > 0 {
                assert(tool_run::registered(specs, calls[0].name));
                assert(rest[k - 1] == calls[k]);
                assert forall|j: int| 0 <= j < k - 1 implies tool_run::registered(
                    specs,
                    (#[trigger] rest[j]).name,
                ) by {
                    assert(rest[j] == calls[j + 1]);
                }
            }
        }
        if forall|k: int|
            0 <= k < calls.len() ==> tool_run::registered(specs, (#[trigger] calls[k]).name) {
            assert(tool_run::registered(specs, calls[0].name));
            assert forall|j: int| 0 <= j < rest.len() implies tool_run::registered(
                specs,
                (#[trigger] rest[j]).name,
            ) by {
                assert(rest[j] == calls[j + 1]);
            }
        }
    }
}

/// Where the stop condition stops the run, it ends well with the reason of the last turn. Where it
/// does not, the next turn begins; only at the limit of turns the run fails, with the limit.
pub proof fn law_stop_condition_decides(s: LoopView, reason: FinishReason)
    requires
        s.phase == PhaseView::StopCheck(reason),
    ensures
        ends_run(s.progress, reason, run_loop::next(s, ReplyView::Stop(true))),
        s.progress.turn < s.progress.config.max_turns ==> {
            let m = run_loop::next(s, ReplyView::Stop(false));
            m.1 is CheckCancel && m.0.phase is CancelCheck && m.0.progress == s.progress
        },
        s.progress.turn >= s.progress.config.max_turns ==> failing_with(
            run_loop::next(s, ReplyView::Stop(false)).0,
        ) == Some(AgentErrorView::MaxTurns(s.progress.config.max_turns)),
{
}

/// Once the tools are done, their answers join the conversation, and the stop condition is asked,
/// with the number of turns, the reason of the last and the number of its calls; without one the
/// next turn begins, below the limit of turns.
pub proof fn law_tools_are_done(p: ProgressView, run: ToolRunView)
    ensures
        ({
            let m = run_loop::close_tools(p, run);
            &&& m.0.progress.session.messages.len() == p.session.messages.len() + 1
            &&& m.0.progress.session.messages.drop_last() == p.session.messages
            &&& m.0.progress.session.messages.last().role == Role::Tool
            &&& m.0.progress.session.id == p.session.id
            &&& m.0.progress.turn == p.turn
            &&& m.0.progress.total_usage == p.total_usage
            &&& p.config.has_stop ==> {
                &&& m.1 matches StepView::EvaluateStop { state }
                &&& state.turns == p.turn
                &&& state.last_reason == run.reason
                &&& state.last_tool_call_count == run.calls.len() as u32
                &&& m.0.phase == PhaseView::StopCheck(run.reason)
            }
            &&& !p.config.has_stop && p.turn < p.config.max_turns ==> m.1 is CheckCancel
                && m.0.phase is CancelCheck
            &&& !p.config.has_stop && p.turn >= p.config.max_turns ==> failing_with(m.0) == Some(
                AgentErrorView::MaxTurns(p.config.max_turns),
            )
        }),
{
    let m = run_loop::close_tools(p, run);
    assert(m.0.progress.session.messages.drop_last() =~= p.session.messages);
}

/// The answers of the tools that the model gets hold, call by call and in order, what the tools gave:
/// the result under the identifier of its call, and that it is an error where it is one.
pub proof fn law_answers_hold_the_results(p: ProgressView, run: ToolRunView)
    requires
        run_laws::all_answered(run),
    ensures
        ({
            let told = run_loop::close_tools(p, run).0.progress.session.messages.last().content;
            &&& told.len() == run.calls.len()
            &&& forall|i: int|
                0 <= i < run.calls.len() ==> {
                    &&& (#[trigger] told[i]) matches ContentBlockView::ToolResult {
                        tool_use_id,
                        content,
                        is_error,
                    }
                    &&& tool_use_id == run.calls[i].id
                    &&& content == run.results[i]->0.content
                    &&& run.results[i]->0.is_error ==> is_error == Some(true)
                    &&& !run.results[i]->0.is_error ==> is_error is None
                }
        }),
{
    run_laws::law_results_in_call_order(run, run.results.len() as int);
}

/// A tool is started with the name and the arguments that the model gave it, and tools that run at
/// the same time are just the calls without a result, in order.
pub proof fn law_tools_get_their_arguments(s: LoopView, reply: ReplyView)
    ensures
        ({
            let (after, step) = run_loop::next(s, reply);
            &&& step matches StepView::RunTool { call } ==> {
                &&& after.phase matches PhaseView::RunningOne(run, at)
                &&& call.index == at
                &&& call.name == run.calls[at].name
                &&& call.arguments == run.calls[at].arguments
            }
            &&& step matches StepView::SpawnTools { calls } ==> {
                &&& after.phase matches PhaseView::Joining(run)
                &&& forall|k: int|
                    0 <= k < calls.len() ==> {
                        let i = (#[trigger] calls[k]).index;
                        &&& 0 <= i < run.results.len()
                        &&& run.results[i] is None
                        &&& calls[k].name == run.calls[i].name
                        &&& calls[k].arguments == run.calls[i].arguments
                    }
                &&& forall|j: int, k: int|
                    0 <= j < k < calls.len() ==> (#[trigger] calls[j]).index < (
                    #[trigger] calls[k]).index
                &&& forall|i: int|
                    0 <= i < run.results.len() && (#[trigger] run.results[i]) is None ==> exists|
                        k: int,
                    |
                        0 <= k < calls.len() && (#[trigger] calls[k]).index == i
            }
        }),
{
    let (after, step) = run_loop::next(s, reply);
    lemma_spawn_is_the_list(s, reply);
    match (step, after.phase) {
        (StepView::SpawnTools { calls }, PhaseView::Joining(run)) => {
            let n = run.results.len() as int;
            run_laws::law_ready_calls(run, n);
            let list = tool_run::ready_calls(run, n);
            assert forall|k: int| 0 <= k < calls.len() implies {
                let i = (#[trigger] calls[k]).index;
                &&& 0 <= i < run.results.len()
                &&& run.results[i] is None
                &&& calls[k].name == run.calls[i].name
                &&& calls[k].arguments == run.calls[i].arguments
            } by {
                let (i, call) = list[k];
                assert(calls[k] == tool_run::ready_call(i, call));
            }
            assert forall|j: int, k: int| 0 <= j < k < calls.len() implies (
            #[trigger] calls[j]).index < (#[trigger] calls[k]).index by {
                assert(list[j].0 < list[k].0);
            }
            assert forall|i: int|
                0 <= i < run.results.len() && (#[trigger] run.results[i]) is None implies exists|
                    k: int,
                |
                    0 <= k < calls.len() && (#[trigger] calls[k]).index == i by {
                assert(list.contains((i, run.calls[i])));
                let k = choose|k: int| 0 <= k < list.len() && list[k] == (i, run.calls[i]);
                assert(calls[k].index == i);
            }
        },
        _ => {},
    }
}

proof fn lemma_spawn_is_the_list(s: LoopView, reply: ReplyView)
    ensures
        ({
            let (after, step) = run_loop::next(s, reply);
            &&& step matches StepView::SpawnTools { calls } ==> {
                &&& after.phase matches PhaseView::Joining(run)
                &&& calls == tool_run::ready_list(run, run.results.len() as int)
            }
            &&& step matches StepView::RunTool { call } ==> {
                &&& after.phase matches PhaseView::RunningOne(run, at)
                &&& call == tool_run::ready_call(at, run.calls[at])
            }
        }),
{
}

/// What a tool gave is kept for its call, and what the others gave stays: where the tools run one by
/// one and where they run at the same time.
pub proof fn law_results_are_kept(s: LoopView, run: ToolRunView, at: int, r: ToolResultView)
    requires
        run_loop::well_formed(s),
    ensures
        s.phase == PhaseView::Joining(run) && 0 <= at < run.results.len() && run.results[at] is None
            ==> {
            let m = run_loop::next(s, ReplyView::Joined { index: at, result: Ok(r) });
            &&& m.1 is JoinTool
            &&& m.0.phase matches PhaseView::Joining(after)
            &&& keeps_result(run, at, r, after)
        },
        s.phase == PhaseView::RunningOne(run, at) ==> {
            let m = run_loop::next(s, ReplyView::ToolReturned(Ok(r)));
            run_laws::tools_of(m.0.phase) matches Some(after) ==> keeps_result(run, at, r, after)
        },
{
}

/// Whether the calls of a turn are as before, with one more result.
pub open spec fn keeps_result(
    run: ToolRunView,
    at: int,
    r: ToolResultView,
    after: ToolRunView,
) -> bool {
    &&& after.calls == run.calls
    &&& after.turn == run.turn
    &&& after.reason == run.reason
    &&& after.results.len() == run.results.len()
    &&& after.results[at] == Some(r)
    &&& forall|i: int|
        0 <= i < run.results.len() && i != at ==> #[trigger] after.results[i] == run.results[i]
}

/// A tool that fails ends the run, with its name where the error does not say what it is; so does
/// one that panics.
pub proof fn law_failing_tools(
    s: LoopView,
    run: ToolRunView,
    at: int,
    e: AgentErrorView,
    message: Seq<char>,
)
    requires
        run_loop::well_formed(s),
    ensures
        s.phase == PhaseView::RunningOne(run, at) ==> fails_as(
            e,
            run.calls[at].name,
            failing_with(run_loop::next(s, ReplyView::ToolReturned(Err(e))).0),
        ),
        s.phase == PhaseView::Joining(run) && 0 <= at < run.results.len() && run.results[at] is None
            ==> fails_as(
            e,
            run.calls[at].name,
            failing_with(
                run_loop::next(s, ReplyView::Joined { index: at, result: Err(e) }).0,
            ),
        ),
        s.phase == PhaseView::Joining(run) ==> failing_with(
            run_loop::next(s, ReplyView::JoinFailed { cancelled: true, message }).0,
        ) == Some(AgentErrorView::Cancelled),
        s.phase == PhaseView::Joining(run) ==> failing_with(
            run_loop::next(s, ReplyView::JoinFailed { cancelled: false, message }).0,
        ) == Some(AgentErrorView::Other("tool task panicked: "@ + message)),
{
}

/// Whether an error of a tool is told as what it is, or else with the tool's name and its text.
pub open spec fn fails_as(
    e: AgentErrorView,
    name: Seq<char>,
    told: Option<AgentErrorView>,
) -> bool {
    if e is Tool || e is Cancelled || e is Permission || e is HookHalt {
        told == Some(e)
    } else {
        told == Some(AgentErrorView::Tool { name, message: error::agent_error_text(e) })
    }
}

/// Whether a move that turns to a result tells the caller of it, under its call and with what the
/// tool gave.
pub open spec fn tells_result(m: run_loop::Move) -> bool {
    m.0.phase matches PhaseView::Reporting(run, at) ==> m.1 !is Unexpected ==> {
        &&& m.1 matches StepView::Emit { event }
        &&& event == AgentEventView::ToolResult {
            turn: run.turn,
            id: run.calls[at].id,
            name: run.calls[at].name,
            content: run.results[at]->0.content,
            is_error: run.results[at]->0.is_error,
        }
    }
}

proof fn lemma_result_told_gates(s: LoopView, reply: ReplyView)
    requires
        s.phase is Permission || s.phase is Asking || s.phase is EndingTurn,
    ensures
        tells_result(run_loop::next(s, reply)),
{
}

proof fn lemma_result_told_hooks(s: LoopView, reply: ReplyView)
    requires
        s.phase is Hooks,
    ensures
        tells_result(run_loop::next(s, reply)),
{
}

proof fn lemma_result_told_running(s: LoopView, reply: ReplyView)
    requires
        s.phase is RunningOne || s.phase is Joining || s.phase is Reporting,
    ensures
        tells_result(run_loop::next(s, reply)),
{
}

proof fn lemma_result_told_else(s: LoopView, reply: ReplyView)
    requires
        run_laws::tools_of(s.phase) is None,
        !(s.phase is EndingTurn),
        !(s.phase is Hooks),
    ensures
        tells_result(run_loop::next(s, reply)),
{
}

/// The caller is told of each result under its call, with what the tool gave.
pub proof fn law_results_are_told(s: LoopView, reply: ReplyView)
    ensures
        tells_result(run_loop::next(s, reply)),
{
    match s.phase {
        PhaseView::Permission(_) => lemma_result_told_gates(s, reply),
        PhaseView::Asking(_) => lemma_result_told_gates(s, reply),
        PhaseView::EndingTurn(_, _) => lemma_result_told_gates(s, reply),
        PhaseView::Hooks(_, _) => lemma_result_told_hooks(s, reply),
        PhaseView::RunningOne(_, _) => lemma_result_told_running(s, reply),
        PhaseView::Joining(_) => lemma_result_told_running(s, reply),
        PhaseView::Reporting(_, _) => lemma_result_told_running(s, reply),
        _ => lemma_result_told_else(s, reply),
    }
}

/// Every result is told, in the order of the calls: the first once the tools are done, and after
/// each the next; and the hooks hear of each.
pub proof fn law_every_result_is_told(s: LoopView, run: ToolRunView, at: int)
    requires
        run_laws::all_answered(run),
        run.calls.len() > 0,
        0 <= at < run.calls.len(),
    ensures
        s.phase == PhaseView::Joining(run) ==> run_loop::next(s, ReplyView::AllJoined).0.phase
            == PhaseView::Reporting(run, 0),
        s.phase == PhaseView::Reporting(run, at) ==> {
            let m = run_loop::next(s, ReplyView::Sent(true));
            if s.progress.config.hooks > 0 {
                puts_to_hooks(
                    m,
                    run.turn,
                    HookEventView::PostToolUse {
                        tool_use_id: run.calls[at].id,
                        name: run.calls[at].name,
                        result: run.results[at]->0,
                    },
                )
            } else if at + 1 < run.calls.len() {
                m.0.phase == PhaseView::Reporting(run, at + 1)
            } else {
                m == run_loop::close_tools(s.progress, run)
            }
        },
        (s.phase matches PhaseView::Hooks(chain, ThenView::Report(x, i)) && x == run && i == at
            && chain.called + 1 >= s.progress.config.hooks) ==> {
            let m = run_loop::next(s, ReplyView::Hook(HookOutcomeView::Continue));
            if at + 1 < run.calls.len() {
                m.0.phase == PhaseView::Reporting(run, at + 1)
            } else {
                m == run_loop::close_tools(s.progress, run)
            }
        },
{
    assert(run.results[0] is Some);
    assert(tool_run::next_call(run.results, 0, true) == 0);
    if at + 1 < run.calls.len() {
        assert(run.results[at + 1] is Some);
        assert(tool_run::next_call(run.results, at + 1, true) == at + 1);
    } else {
        assert(tool_run::next_call(run.results, at + 1, true) == run.results.len());
    }
}

/// The permission policy is asked about the call at hand, by its name and its arguments, and the
/// user is asked what the policy wants to know.
pub proof fn law_policy_is_asked(s: LoopView, reply: ReplyView)
    ensures
        ({
            let (after, step) = run_loop::next(s, reply);
            &&& step matches StepView::CheckPermission { name, arguments } ==> {
                &&& after.phase matches PhaseView::Permission(run)
                &&& name == run.calls[run.results.len() as int].name
                &&& arguments == run.calls[run.results.len() as int].arguments
            }
            &&& step matches StepView::AskUser { prompt } ==> {
                &&& reply == ReplyView::Permission(DecisionView::AskUser { prompt })
                &&& s.progress.config.can_ask
                &&& s.phase matches PhaseView::Permission(run) && after.phase
                    == PhaseView::Asking(run)
            }
        }),
{
}

/// What a verdict on the call at hand means: a call that is allowed has no result yet, and one that
/// is denied has a failure in its place, which says why. A question is put to the user where that is
/// possible, and means no where it is not.
pub proof fn law_verdicts(name: Seq<char>, reason: Seq<char>, can_ask: bool)
    ensures
        tool_run::verdict(name, DecisionView::Allow) is None,
        tool_run::verdict(name, DecisionView::Deny(reason)) == Some(
            ToolResultView {
                content: JsonView::Text("permission denied for '"@ + name + "': "@ + reason),
                is_error: true,
            },
        ),
        tool_run::policy_gate(name, DecisionView::Allow, can_ask)
            == tool_run::PolicyGateView::Settled(None),
        tool_run::policy_gate(name, DecisionView::Deny(reason), can_ask)
            == tool_run::PolicyGateView::Settled(
            Some(
                ToolResultView {
                    content: JsonView::Text("permission denied for '"@ + name + "': "@ + reason),
                    is_error: true,
                },
            ),
        ),
        tool_run::policy_gate(name, DecisionView::AskUser { prompt: reason }, true)
            == (tool_run::PolicyGateView::Ask { prompt: reason }),
        tool_run::policy_gate(name, DecisionView::AskUser { prompt: reason }, false) matches
            tool_run::PolicyGateView::Settled(Some(r)) && r.is_error,
{
}

/// Whether the calls of a turn are as before, with one more past the gates.
pub open spec fn keeps_verdict(
    run: ToolRunView,
    r: Option<ToolResultView>,
    after: ToolRunView,
) -> bool {
    &&& after.calls == run.calls
    &&& after.results.len() > run.results.len()
    &&& after.results[run.results.len() as int] == r
    &&& forall|i: int|
        0 <= i < run.results.len() ==> #[trigger] after.results[i] == run.results[i]
}

/// A verdict is kept for the call at hand: a denied call, by the policy, by the user or by a hook,
/// has its failure in the place of a result, and an allowed one has none.
pub proof fn law_verdicts_are_kept(s: LoopView, run: ToolRunView, d: DecisionView, reason: Seq<char>)
    requires
        run_loop::well_formed(s),
        run_loop::has_call(run),
    ensures
        s.phase == PhaseView::Permission(run) && !(d is AskUser) ==> {
            let m = run_loop::next(s, ReplyView::Permission(d));
            run_laws::tools_of(m.0.phase) matches Some(after) ==> keeps_verdict(
                run,
                tool_run::verdict(run.calls[run.results.len() as int].name, d),
                after,
            )
        },
        s.phase == PhaseView::Asking(run) ==> {
            let m = run_loop::next(s, ReplyView::Permission(d));
            run_laws::tools_of(m.0.phase) matches Some(after) ==> keeps_verdict(
                run,
                tool_run::verdict(run.calls[run.results.len() as int].name, d),
                after,
            )
        },
        (s.phase matches PhaseView::Hooks(chain, ThenView::Permit(x)) && x == run) ==> {
            let m = run_loop::next(s, ReplyView::Hook(HookOutcomeView::Deny(reason)));
            run_laws::tools_of(m.0.phase) matches Some(after) ==> keeps_verdict(
                run,
                Some(
                    ToolResultView {
                        content: JsonView::Text(
                            "hook denied tool '"@ + run.calls[run.results.len() as int].name
                                + "': "@ + reason,
                        ),
                        is_error: true,
                    },
                ),
                after,
            )
        },
{
}

/// A hook that halts ends the run with its reason, and so does one that denies, but before a tool
/// and after it; at the end of the run nothing that a hook answers makes a difference.
pub proof fn law_objections(s: LoopView, chain: HookChainView, then: ThenView, reason: Seq<char>)
    requires
        s.phase == PhaseView::Hooks(chain, then),
    ensures
        !(then is Finish) ==> failing_with(
            run_loop::next(s, ReplyView::Hook(HookOutcomeView::Halt(reason))).0,
        ) == Some(AgentErrorView::HookHalt(reason)),
        then is FirstTurn || then is CallModel || then is EndTurn ==> failing_with(
            run_loop::next(s, ReplyView::Hook(HookOutcomeView::Deny(reason))).0,
        ) == Some(AgentErrorView::HookHalt(reason)),
        then matches ThenView::Finish(why) ==> {
            &&& tells_end(
                s.progress,
                why,
                run_loop::next(s, ReplyView::Hook(HookOutcomeView::Halt(reason))),
            )
            &&& tells_end(
                s.progress,
                why,
                run_loop::next(s, ReplyView::Hook(HookOutcomeView::Deny(reason))),
            )
            &&& chain.called + 1 >= s.progress.config.hooks ==> tells_end(
                s.progress,
                why,
                run_loop::next(s, ReplyView::Hook(HookOutcomeView::Continue)),
            )
        },
{
}

/// What the last hook lets pass goes on: the prompt to the first turn, and a call to the permission
/// policy, where there is one.
pub proof fn law_hooks_let_pass(s: LoopView, chain: HookChainView, then: ThenView)
    requires
        s.phase == PhaseView::Hooks(chain, then),
    ensures
        chain.called + 1 < s.progress.config.hooks ==> {
            let m = run_loop::next(s, ReplyView::Hook(HookOutcomeView::Continue));
            &&& m.1 matches StepView::CallHook { index, ctx }
            &&& index == chain.called + 1
            &&& ctx.event == chain.event
            &&& ctx.turn == chain.turn
        },
        chain.called + 1 >= s.progress.config.hooks && then is FirstTurn ==> run_loop::next(
            s,
            ReplyView::Hook(HookOutcomeView::Continue),
        ).1 is CheckCancel,
        chain.called + 1 >= s.progress.config.hooks && s.progress.config.has_policy && then
            is Permit ==> run_loop::next(
            s,
            ReplyView::Hook(HookOutcomeView::Continue),
        ).1 is CheckPermission,
{
}

/// A run that fails tells the hooks, where there are any, and then the caller, in words; and then it
/// is over, with the error.
pub proof fn law_failure_is_told(s: LoopView, e: AgentErrorView)
    ensures
        s.phase == PhaseView::Failing(e) ==> forall|sent: bool|
            (#[trigger] run_loop::next(s, ReplyView::Sent(sent))).1 == (StepView::Done {
                result: Err(e),
            }),
        s.phase is Finishing ==> run_loop::next(s, ReplyView::Sent(true)).1 == (StepView::Done {
            result: Ok(()),
        }),
{
}

/// Nothing joins the conversation but the message of the assistant at the end of a turn, and the
/// answers of the tools.
pub proof fn law_nothing_else_is_said(s: LoopView, reply: ReplyView)
    requires
        run_laws::tools_of(s.phase) is None,
        !(s.phase is EndingTurn),
    ensures
        ({
            let (after, step) = run_loop::next(s, reply);
            ||| after.progress.session == s.progress.session
            ||| step matches StepView::Emit { event } && event is TurnEnd
        }),
{
}

} // verus!
