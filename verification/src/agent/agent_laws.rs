//! What an agent takes over from its configuration, how its runs begin, and what they give back.

use crate::agent::builder;
use crate::agent::builder::BuilderView;
use crate::agent::error::AgentErrorView;
use crate::agent::event;
use crate::agent::event::AgentEventView;
use crate::agent::run_loop;
use crate::agent::run_loop::LoopConfigView;
use crate::agent::session;
use crate::agent::session::SessionView;
use crate::agent::tool_run;
use crate::agent::turn_laws;
use crate::flat;
use crate::language_model::event::{FinishReason, Usage};
use crate::language_model::message::{ContentBlockView, Role};
use crate::language_model::tool::ToolSpecView;
use vstd::prelude::*;

verus! {

/// Whether a tool has the name of an earlier one.
pub open spec fn name_taken(tools: Seq<ToolSpecView>, j: int) -> bool {
    exists|i: int| 0 <= i < j && (#[trigger] tools[i]).name == tools[j].name
}

/// Whether a tool is the first that has the name of an earlier one.
pub open spec fn first_taken(tools: Seq<ToolSpecView>, j: int) -> bool {
    &&& 0 <= j < tools.len()
    &&& name_taken(tools, j)
    &&& forall|k: int| 0 <= k < j ==> !#[trigger] name_taken(tools, k)
}

proof fn lemma_repeated(tools: Seq<ToolSpecView>)
    ensures
        match builder::repeated_name(tools) {
            None => forall|k: int| 0 <= k < tools.len() ==> !#[trigger] name_taken(tools, k),
            Some(name) => exists|j: int| #[trigger]
                first_taken(tools, j) && tools[j].name == name,
        },
    decreases tools.len(),
{
    if tools.len() > 0 {
        let front = tools.drop_last();
        let last = tools.len() - 1;
        lemma_repeated(front);
        assert forall|k: int| 0 <= k < front.len() implies #[trigger] name_taken(tools, k)
            == name_taken(front, k) by {
            if name_taken(tools, k) {
                let i = choose|i: int| 0 <= i < k && (#[trigger] tools[i]).name == tools[k].name;
                assert(front[i].name == front[k].name);
            }
            if name_taken(front, k) {
                let i = choose|i: int| 0 <= i < k && (#[trigger] front[i]).name == front[k].name;
                assert(tools[i].name == tools[k].name);
            }
        }
        assert(tool_run::registered(front, tools.last().name) == name_taken(tools, last)) by {
            if tool_run::registered(front, tools.last().name) {
                let i = choose|i: int|
                    0 <= i < front.len() && (#[trigger] front[i]).name == tools.last().name;
                assert(tools[i].name == tools[last].name);
            }
            if name_taken(tools, last) {
                let i = choose|i: int|
                    0 <= i < last && (#[trigger] tools[i]).name == tools[last].name;
                assert(front[i].name == tools.last().name);
            }
        }
        match builder::repeated_name(front) {
            Some(name) => {
                let j = choose|j: int| #[trigger] first_taken(front, j) && front[j].name == name;
                assert(first_taken(tools, j) && tools[j].name == name);
            },
            None => {
                if name_taken(tools, last) {
                    assert(first_taken(tools, last));
                }
            },
        }
    }
}

/// An agent comes of every configuration that has a model, at least one turn and no two tools of one
/// name, and has everything as the configuration says. What else is refused, and the refusal names
/// the reason: the model comes first, then the turns, then the first tool whose name is taken.
pub proof fn law_settings_are_kept(b: BuilderView)
    ensures
        match builder::built(b) {
            Ok(agent) => {
                &&& b.model == Some((agent.config.provider_id, agent.config.model_id))
                &&& b.max_turns >= 1
                &&& forall|k: int| 0 <= k < b.tools.len() ==> !#[trigger] name_taken(b.tools, k)
                &&& agent.config.tool_specs == b.tools
                &&& agent.config.system == b.system
                &&& agent.config.tool_choice == b.tool_choice
                &&& agent.config.temperature == b.temperature
                &&& agent.config.max_tokens == b.max_tokens
                &&& agent.config.max_turns == b.max_turns
                &&& agent.config.parallel_tool_calls == b.parallel_tool_calls
                &&& agent.config.hooks == b.hooks
                &&& agent.config.can_ask == b.can_ask
                &&& agent.config.has_policy == b.has_policy
                &&& agent.config.has_stop == b.has_stop
                &&& agent.default_session == b.session
            },
            Err(e) => if b.model is None {
                e == AgentErrorView::InvalidConfig("Agent requires a model (call .model(..))"@)
            } else if b.max_turns == 0 {
                e == AgentErrorView::InvalidConfig("max_turns must be >= 1"@)
            } else {
                exists|j: int| #[trigger]
                    first_taken(b.tools, j) && e == AgentErrorView::InvalidConfig(
                        "duplicate tool name registered: "@ + b.tools[j].name,
                    )
            },
        },
{
    lemma_repeated(b.tools);
}

/// What holds where nothing was said: 16 turns, the tools of a turn at the same time, the model picks
/// the tools, and nothing else is set.
pub proof fn law_defaults()
    ensures
        ({
            let b = builder::new_builder();
            &&& b.model is None
            &&& b.tools.len() == 0
            &&& b.system is None
            &&& b.tool_choice is Auto
            &&& b.temperature is None
            &&& b.max_tokens is None
            &&& b.max_turns == 16
            &&& b.parallel_tool_calls
            &&& b.session is None
            &&& b.hooks == 0
            &&& !b.can_ask
            &&& !b.has_policy
            &&& !b.has_stop
        }),
{
}

/// A run begins with the conversation it was given, or with none, and with the input as a message of
/// the user behind it, unless the input is empty. Nothing else of the conversation changes.
pub proof fn law_run_begins(seed: Option<SessionView>, input: Seq<char>)
    ensures
        ({
            let s = session::run_session(seed, input);
            let before = match seed {
                Some(given) => given.messages,
                None => Seq::empty(),
            };
            &&& s.messages.len() == before.len() + (if input.len() == 0 {
                0int
            } else {
                1int
            })
            &&& forall|i: int| 0 <= i < before.len() ==> #[trigger] s.messages[i] == before[i]
            &&& input.len() > 0 ==> {
                let last = s.messages[before.len() as int];
                &&& last.role == Role::User
                &&& last.content.len() == 1
                &&& last.content[0] == (ContentBlockView::Text { text: input })
            }
            &&& match seed {
                Some(given) => s.id == given.id && s.metadata == given.metadata,
                None => s.id.len() == 0 && s.metadata.len() == 0,
            }
        }),
{
}

/// A run that has not begun has the configuration and the conversation it was given, and has done
/// nothing.
pub proof fn law_new_run(config: LoopConfigView, conversation: SessionView)
    ensures
        ({
            let v = run_loop::new_loop(config, conversation);
            &&& v.progress.config == config
            &&& v.progress.session == conversation
            &&& v.progress.turn == 0
            &&& v.progress.total_usage.input_tokens == 0
            &&& v.progress.total_usage.output_tokens == 0
            &&& v.progress.total_usage.cached_input_tokens == 0
        }),
{
}

/// The text that an event tells.
pub open spec fn text_in(e: AgentEventView) -> Seq<char> {
    match e {
        AgentEventView::TextDelta { delta, .. } => delta,
        _ => Seq::empty(),
    }
}

/// The end that an event tells of.
pub open spec fn end_in(e: AgentEventView) -> Seq<(u32, FinishReason, Usage)> {
    match e {
        AgentEventView::Finish { turns, reason, usage } => seq![(turns, reason, usage)],
        _ => Seq::empty(),
    }
}

/// What a run gives back: all its events; all its text, fragment by fragment; and the turns, the
/// reason and the cost that its last end tells of.
pub proof fn law_output(events: Seq<AgentEventView>)
    ensures
        ({
            let o = event::output_of(events);
            &&& o.events == events
            &&& o.text == events.flat_map(|e: AgentEventView| text_in(e))
            &&& match turn_laws::last_of(events.flat_map(|e: AgentEventView| end_in(e))) {
                Some((turns, reason, usage)) => o.turns == turns && o.reason == reason && o.usage
                    == usage,
                None => o.turns == 0 && o.reason == FinishReason::Other && o.usage.input_tokens
                    == 0 && o.usage.output_tokens == 0 && o.usage.cached_input_tokens == 0,
            }
        }),
    decreases events.len(),
{
    let a = |e: AgentEventView| text_in(e);
    let b = |e: AgentEventView| end_in(e);
    if events.len() == 0 {
        flat::lemma_flat_empty(events, a);
        flat::lemma_flat_empty(events, b);
    } else {
        let front = events.drop_last();
        law_output(front);
        flat::lemma_flat_last(events, a);
        flat::lemma_flat_last(events, b);
        turn_laws::lemma_last(front.flat_map(b), end_in(events.last()));
        assert(front.push(events.last()) =~= events);
        assert(event::output_of(front).text + Seq::<char>::empty() =~= event::output_of(
            front,
        ).text);
    }
}

/// Whether a count is the sum of two, up to the largest number.
pub open spec fn is_sum(a: u32, b: u32, sum: u32) -> bool {
    if a + b <= u32::MAX {
        sum == a + b
    } else {
        sum == u32::MAX
    }
}

/// What two turns cost is what the one and the other cost, count by count.
pub proof fn law_costs_are_added(a: Usage, b: Usage)
    ensures
        is_sum(a.input_tokens, b.input_tokens, event::usage_sum(a, b).input_tokens),
        is_sum(a.output_tokens, b.output_tokens, event::usage_sum(a, b).output_tokens),
        is_sum(
            a.cached_input_tokens,
            b.cached_input_tokens,
            event::usage_sum(a, b).cached_input_tokens,
        ),
{
}

} // verus!
