//! How tools are started, what failures say, and what a command's answer means.

use crate::agent::error;
use crate::agent::error::AgentErrorView;
use crate::agent::external_command;
use crate::agent::external_command::{CommandEnd, CommandView, WireOutcome};
use crate::agent::hook::{HookChainView, HookEventView, HookOutcomeView};
use crate::agent::run_laws;
use crate::agent::run_loop;
use crate::agent::run_loop::{LoopView, PhaseView, ProgressView, ReplyView, StepView, ThenView};
use crate::agent::step_laws;
use crate::agent::tool_run;
use crate::agent::tool_run::ToolRunView;
use crate::flat;
use crate::json;
use crate::json::JsonView;
use crate::language_model;
use crate::language_model::error::ModelErrorView;
use crate::language_model::request::RequestView;
use crate::text;
use vstd::prelude::*;

verus! {

/// Where the run was not cancelled and there are hooks, the first of them gets the request, with all
/// that the run has to say, before the model does; so it is at every turn, whatever hooks did to
/// earlier requests.
pub proof fn law_hooks_get_the_request(s: LoopView)
    requires
        s.phase is CancelCheck,
        s.progress.config.hooks > 0,
    ensures
        run_loop::next(s, ReplyView::CancelState(false)).1 matches StepView::CallHook { index, ctx }
            && index == 0 && ctx.turn == s.progress.turn && (ctx.event matches
            HookEventView::PreModel { request } && step_laws::faithful(request, s.progress)),
{
}

/// A hook can replace the request and nothing else: where there is no request, to replace it is to let
/// the event pass.
pub proof fn law_nothing_else_is_replaced(s: LoopView, chain: HookChainView, request: RequestView)
    requires
        s.phase matches PhaseView::Hooks(c, _) && c == chain,
        !(chain.event is PreModel),
    ensures
        run_loop::next(s, ReplyView::Hook(HookOutcomeView::ModifyRequest(request)))
            == run_loop::next(s, ReplyView::Hook(HookOutcomeView::Continue)),
{
}

/// After a tool has run, a hook that denies changes nothing: the run goes on as it does where the last
/// hook lets the result pass.
pub proof fn law_denial_comes_too_late(
    s: LoopView,
    chain: HookChainView,
    run: ToolRunView,
    at: int,
    reason: Seq<char>,
)
    requires
        s.phase == PhaseView::Hooks(chain, ThenView::Report(run, at)),
        s.progress.config.hooks > 0,
    ensures
        ({
            let last = LoopView {
                phase: PhaseView::Hooks(
                    HookChainView { called: (s.progress.config.hooks - 1) as nat, ..chain },
                    ThenView::Report(run, at),
                ),
                ..s
            };
            run_loop::next(s, ReplyView::Hook(HookOutcomeView::Deny(reason))) == run_loop::next(
                last,
                ReplyView::Hook(HookOutcomeView::Continue),
            )
        }),
{
}

/// Whether two calls may run and have not.
pub open spec fn several_are_ready(run: ToolRunView) -> bool {
    exists|i: int, j: int|
        0 <= i < j < run.results.len() && (#[trigger] run.results[i]) is None && (
        #[trigger] run.results[j]) is None
}

/// The tools of a turn are started at the same time exactly where that is wanted and several may run;
/// else the first that may run is.
pub proof fn law_tools_are_started(p: ProgressView, run: ToolRunView)
    ensures
        ({
            let m = run_loop::start_tools(p, run);
            &&& m.1 is SpawnTools <==> p.config.parallel_tool_calls && several_are_ready(run)
            &&& forall|k: int|
                !(m.1 is SpawnTools) && 0 <= k < run.results.len() && (#[trigger] run.results[k])
                    is None && (forall|j: int|
                    0 <= j < k ==> (#[trigger] run.results[j]) is Some) ==> {
                    &&& m.1 matches StepView::RunTool { call }
                    &&& call.index == k
                    &&& call.name == run.calls[k].name
                    &&& call.arguments == run.calls[k].arguments
                }
        }),
{
    let n = run.results.len() as int;
    let ready = tool_run::ready_calls(run, n);
    run_laws::law_ready_calls(run, n);
    assert(tool_run::ready_list(run, n).len() == ready.len());
    if several_are_ready(run) {
        let (i, j) = choose|i: int, j: int|
            0 <= i < j < run.results.len() && (#[trigger] run.results[i]) is None && (
            #[trigger] run.results[j]) is None;
        let a = choose|a: int| 0 <= a < ready.len() && ready[a] == (i, run.calls[i]);
        let b = choose|b: int| 0 <= b < ready.len() && ready[b] == (j, run.calls[j]);
        assert(ready.contains((i, run.calls[i])));
        assert(ready.contains((j, run.calls[j])));
        assert(a != b);
    }
    if ready.len() > 1 {
        let (i, _) = ready[0];
        let (j, _) = ready[1];
        assert(run.results[i] is None && run.results[j] is None && i < j);
    }
    run_laws::lemma_next_call(run.results, 0, false);
    run_laws::lemma_skipped(run.results, 0, false);
    assert forall|k: int|
        0 <= k < run.results.len() && (#[trigger] run.results[k]) is None && (forall|j: int|
            0 <= j < k ==> (#[trigger] run.results[j]) is Some) implies tool_run::next_call(
        run.results,
        0,
        false,
    ) == k by {
        let at = tool_run::next_call(run.results, 0, false);
        if at < k {
            assert(run.results[at] is Some);
        }
    }
}

/// What an error of a model says.
pub proof fn law_model_errors_in_words(m: Seq<char>, wait: Option<u64>)
    ensures
        language_model::error::model_error_text(ModelErrorView::InvalidRequest(m))
            == "invalid request: "@ + m,
        language_model::error::model_error_text(ModelErrorView::Auth(m))
            == "authentication failed: "@ + m,
        language_model::error::model_error_text(
            ModelErrorView::RateLimit { message: m, retry_after_ms: wait },
        ) == "rate limited: "@ + m,
        language_model::error::model_error_text(ModelErrorView::ContextLengthExceeded(m))
            == "context length exceeded: "@ + m,
        language_model::error::model_error_text(ModelErrorView::Provider(m))
            == "provider error: "@ + m,
        language_model::error::model_error_text(ModelErrorView::Transport(m))
            == "transport error: "@ + m,
        language_model::error::model_error_text(ModelErrorView::Cancelled)
            == "request cancelled"@,
        language_model::error::model_error_text(ModelErrorView::Other(m)) == m,
{
}

/// What an error of a run says.
pub proof fn law_errors_in_words(name: Seq<char>, m: Seq<char>, n: u32, e: ModelErrorView)
    ensures
        error::agent_error_text(AgentErrorView::Provider(e)) == "provider error: "@
            + language_model::error::model_error_text(e),
        error::agent_error_text(AgentErrorView::Tool { name, message: m }) == "tool '"@ + name
            + "' failed: "@ + m,
        error::agent_error_text(AgentErrorView::InvalidToolArguments { name, message: m })
            == "tool '"@ + name + "' produced invalid argument JSON: "@ + m,
        error::agent_error_text(AgentErrorView::HookHalt(m)) == "hook halted the loop: "@ + m,
        error::agent_error_text(AgentErrorView::Permission { name, message: m })
            == "permission denied for tool '"@ + name + "': "@ + m,
        error::agent_error_text(AgentErrorView::Mcp(m)) == "mcp error: "@ + m,
        error::agent_error_text(AgentErrorView::MaxTurns(n)) == "reached max_turns ("@
            + text::decimal_text(n as nat) + ")"@,
        error::agent_error_text(AgentErrorView::Cancelled) == "agent run cancelled"@,
        error::agent_error_text(AgentErrorView::InvalidConfig(m))
            == "invalid agent configuration: "@ + m,
        error::agent_error_text(AgentErrorView::Other(m)) == m,
{
}

/// An error of a tool that says already what it is stays as it is; any other is told as an error of
/// the tool, in its own words and under the tool's name.
pub proof fn law_tool_errors(name: Seq<char>, e: AgentErrorView)
    ensures
        if e is Tool || e is Cancelled || e is Permission || e is HookHalt {
            error::tool_error(name, e) == e
        } else {
            error::tool_error(name, e) == (AgentErrorView::Tool {
                name,
                message: error::agent_error_text(e),
            })
        },
{
}

/// Whether a byte is a space, a tab, a line feed, a form feed or a carriage return.
pub open spec fn is_space(b: u8) -> bool {
    b == 32 || b == 9 || b == 10 || b == 12 || b == 13
}

/// A command that answers nothing, or to go on, lets the run go on; one that objects is heard, with
/// its reason; and whatever goes wrong halts the run, and says what went wrong.
pub proof fn law_commands(c: CommandView, end: CommandEnd)
    ensures
        ({
            let outcome = external_command::command_outcome(c, end);
            match end {
                CommandEnd::SerializeFailed(e) => outcome == HookOutcomeView::Halt(
                    "hook ctx serialize failed: "@ + e@,
                ),
                CommandEnd::SpawnFailed(e) => outcome == HookOutcomeView::Halt(
                    "hook spawn failed: "@ + e@,
                ),
                CommandEnd::WriteFailed(e) => outcome == HookOutcomeView::Halt(
                    "hook stdin write failed: "@ + e@,
                ),
                CommandEnd::Cancelled => outcome == HookOutcomeView::Halt("hook cancelled"@),
                CommandEnd::TimedOut => outcome == HookOutcomeView::Halt(
                    "hook timed out after "@ + text::decimal_text(
                        (c.timeout.secs * 1000 + c.timeout.nanos / 1_000_000) as nat,
                    ) + "ms"@,
                ),
                CommandEnd::WaitFailed(e) => outcome == HookOutcomeView::Halt(
                    "hook wait failed: "@ + e@,
                ),
                CommandEnd::Output { stdout, answer } => {
                    let silent = forall|i: int|
                        0 <= i < stdout@.len() ==> is_space(#[trigger] stdout@[i]);
                    &&& silent ==> outcome is Continue
                    &&& !silent ==> (answer matches Ok(WireOutcome::Continue) ==> outcome
                        is Continue)
                    &&& !silent ==> (answer matches Ok(WireOutcome::Deny { reason }) ==> outcome
                        == HookOutcomeView::Deny(reason@))
                    &&& !silent ==> (answer matches Ok(WireOutcome::Halt { reason }) ==> outcome
                        == HookOutcomeView::Halt(reason@))
                    &&& !silent ==> (answer matches Err(e) ==> outcome == HookOutcomeView::Halt(
                        "hook output not JSON: "@ + e@,
                    ))
                },
            }
        }),
{
    if let CommandEnd::Output { stdout, answer } = end {
        assert(external_command::blank(stdout@) == (forall|i: int|
            0 <= i < stdout@.len() ==> is_space(#[trigger] stdout@[i]))) by {
            if external_command::blank(stdout@) {
                assert forall|i: int| 0 <= i < stdout@.len() implies is_space(
                    #[trigger] stdout@[i],
                ) by {
                    assert(external_command::ascii_space(stdout@[i]));
                }
            }
            if forall|i: int| 0 <= i < stdout@.len() ==> is_space(#[trigger] stdout@[i]) {
                assert forall|i: int| 0 <= i < stdout@.len() implies external_command::ascii_space(
                    #[trigger] stdout@[i],
                ) by {
                    assert(is_space(stdout@[i]));
                }
            }
        }
    }
}

/// A value as a text: a string as it is, any other value in JSON, and a string in JSON stands between
/// quotes, with nothing lost but what is escaped.
pub proof fn law_values_in_words(s: Seq<char>)
    ensures
        json::json_body(JsonView::Text(s)) == s,
        json::json_body(JsonView::Raw(s)) == s,
        json::json_text(JsonView::Raw(s)) == s,
        json::json_body(JsonView::Null) == "null"@,
        json::json_text(JsonView::Null) == "null"@,
        json::json_body(JsonView::Bool(true)) == "true"@,
        json::json_text(JsonView::Bool(true)) == "true"@,
        json::json_body(JsonView::Bool(false)) == "false"@,
        json::json_text(JsonView::Bool(false)) == "false"@,
        json::json_text(JsonView::Text(s)) == seq!['"'] + s.flat_map(|c: char| json::escaped(c))
            + seq!['"'],
{
    lemma_escaped(s);
}

proof fn lemma_escaped(s: Seq<char>)
    ensures
        json::escaped_text(s) == s.flat_map(|c: char| json::escaped(c)),
    decreases s.len(),
{
    let f = |c: char| json::escaped(c);
    if s.len() == 0 {
        flat::lemma_flat_empty(s, f);
    } else {
        lemma_escaped(s.drop_last());
        flat::lemma_flat_last(s, f);
    }
}

} // verus!
