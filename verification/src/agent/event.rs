//! Events that a run hands to its caller.

use crate::agent::error;
use crate::agent::error::{AgentError, AgentErrorView};
use crate::json::{Json, JsonView};
use crate::language_model::event;
use crate::language_model::event::{FinishReason, Usage};
use crate::model;
use vstd::prelude::*;
use vstd::string::*;

verus! {

/// An event of a run.
#[derive(Debug, PartialEq, Eq)]
pub enum AgentEvent {
    /// A fragment of assistant text.
    TextDelta {
        /// The turn, counted from zero.
        turn: u32,
        /// The text to append.
        delta: String,
    },
    /// A fragment of the reasoning trace.
    ReasoningDelta {
        /// The turn, counted from zero.
        turn: u32,
        /// The text to append.
        delta: String,
    },
    /// The assistant begins a tool call.
    ToolCallStart {
        /// The turn, counted from zero.
        turn: u32,
        /// The call's identifier.
        id: String,
        /// The tool's name.
        name: String,
    },
    /// The arguments of a tool call are complete.
    ToolCallEnd {
        /// The turn, counted from zero.
        turn: u32,
        /// The call's identifier.
        id: String,
        /// The tool's name.
        name: String,
        /// The arguments.
        arguments: Json,
    },
    /// A tool has run.
    ToolResult {
        /// The turn, counted from zero.
        turn: u32,
        /// The identifier of the call that this answers.
        id: String,
        /// The tool's name.
        name: String,
        /// The tool's output.
        content: Json,
        /// Whether the tool reported a failure.
        is_error: bool,
    },
    /// A turn of the model is over.
    TurnEnd {
        /// The turn, counted from zero.
        turn: u32,
        /// Why the provider stopped.
        reason: FinishReason,
        /// What the turn cost.
        usage: Usage,
    },
    /// The run is over, and succeeded.
    Finish {
        /// The number of turns.
        turns: u32,
        /// Why the run ended.
        reason: FinishReason,
        /// What all turns cost.
        usage: Usage,
    },
    /// The run failed. No event follows.
    Error {
        /// The error's text.
        message: String,
    },
}

/// Model of an agent event.
#[verifier::ext_equal]
pub enum AgentEventView {
    TextDelta { turn: u32, delta: Seq<char> },
    ReasoningDelta { turn: u32, delta: Seq<char> },
    ToolCallStart { turn: u32, id: Seq<char>, name: Seq<char> },
    ToolCallEnd { turn: u32, id: Seq<char>, name: Seq<char>, arguments: JsonView },
    ToolResult { turn: u32, id: Seq<char>, name: Seq<char>, content: JsonView, is_error: bool },
    TurnEnd { turn: u32, reason: FinishReason, usage: Usage },
    Finish { turns: u32, reason: FinishReason, usage: Usage },
    Error { message: Seq<char> },
}

impl View for AgentEvent {
    type V = AgentEventView;

    open spec fn view(&self) -> AgentEventView {
        match *self {
            AgentEvent::TextDelta { turn, delta } => AgentEventView::TextDelta {
                turn,
                delta: delta@,
            },
            AgentEvent::ReasoningDelta { turn, delta } => AgentEventView::ReasoningDelta {
                turn,
                delta: delta@,
            },
            AgentEvent::ToolCallStart { turn, id, name } => AgentEventView::ToolCallStart {
                turn,
                id: id@,
                name: name@,
            },
            AgentEvent::ToolCallEnd { turn, id, name, arguments } => AgentEventView::ToolCallEnd {
                turn,
                id: id@,
                name: name@,
                arguments: arguments@,
            },
            AgentEvent::ToolResult { turn, id, name, content, is_error } => {
                AgentEventView::ToolResult {
                    turn,
                    id: id@,
                    name: name@,
                    content: content@,
                    is_error,
                }
            },
            AgentEvent::TurnEnd { turn, reason, usage } => AgentEventView::TurnEnd {
                turn,
                reason,
                usage,
            },
            AgentEvent::Finish { turns, reason, usage } => AgentEventView::Finish {
                turns,
                reason,
                usage,
            },
            AgentEvent::Error { message } => AgentEventView::Error { message: message@ },
        }
    }
}

impl DeepView for AgentEvent {
    type V = AgentEventView;

    open spec fn deep_view(&self) -> AgentEventView {
        self@
    }
}

impl Clone for AgentEvent {
    fn clone(&self) -> (r: Self)
        ensures
            r@ == self@,
    {
        match self {
            AgentEvent::TextDelta { turn, delta } => AgentEvent::TextDelta {
                turn: *turn,
                delta: delta.clone(),
            },
            AgentEvent::ReasoningDelta { turn, delta } => AgentEvent::ReasoningDelta {
                turn: *turn,
                delta: delta.clone(),
            },
            AgentEvent::ToolCallStart { turn, id, name } => AgentEvent::ToolCallStart {
                turn: *turn,
                id: id.clone(),
                name: name.clone(),
            },
            AgentEvent::ToolCallEnd { turn, id, name, arguments } => AgentEvent::ToolCallEnd {
                turn: *turn,
                id: id.clone(),
                name: name.clone(),
                arguments: arguments.clone(),
            },
            AgentEvent::ToolResult { turn, id, name, content, is_error } => AgentEvent::ToolResult {
                turn: *turn,
                id: id.clone(),
                name: name.clone(),
                content: content.clone(),
                is_error: *is_error,
            },
            AgentEvent::TurnEnd { turn, reason, usage } => AgentEvent::TurnEnd {
                turn: *turn,
                reason: *reason,
                usage: *usage,
            },
            AgentEvent::Finish { turns, reason, usage } => AgentEvent::Finish {
                turns: *turns,
                reason: *reason,
                usage: *usage,
            },
            AgentEvent::Error { message } => AgentEvent::Error { message: message.clone() },
        }
    }
}

/// Adds two counts, up to the largest number.
pub open spec fn capped_sum(a: u32, b: u32) -> u32 {
    if a + b > u32::MAX {
        u32::MAX
    } else {
        (a + b) as u32
    }
}

/// The sum of two usages, count by count.
pub open spec fn usage_sum(a: Usage, b: Usage) -> Usage {
    Usage {
        input_tokens: capped_sum(a.input_tokens, b.input_tokens),
        output_tokens: capped_sum(a.output_tokens, b.output_tokens),
        cached_input_tokens: capped_sum(a.cached_input_tokens, b.cached_input_tokens),
    }
}

/// Adds two usages.
pub fn add_usage(a: Usage, b: Usage) -> (r: Usage)
    ensures
        r == usage_sum(a, b),
{
    Usage {
        input_tokens: a.input_tokens.saturating_add(b.input_tokens),
        output_tokens: a.output_tokens.saturating_add(b.output_tokens),
        cached_input_tokens: a.cached_input_tokens.saturating_add(b.cached_input_tokens),
    }
}

/// The event that tells of an error.
pub open spec fn error_event_of(e: AgentErrorView) -> AgentEventView {
    AgentEventView::Error { message: error::agent_error_text(e) }
}

/// The event that tells of an error.
pub fn error_event(err: &AgentError) -> (r: AgentEvent)
    ensures
        r@ == error_event_of(err@),
{
    AgentEvent::Error { message: err.to_text() }
}

/// What became of the result of a run.
#[derive(Debug, PartialEq, Eq)]
pub enum FinalReceipt {
    /// It arrived.
    Arrived(Result<(), AgentError>),
    /// The run vanished without giving one.
    Dropped,
    /// It was asked for before.
    Taken,
}

/// The result of a run, by what became of it.
pub fn final_result(receipt: FinalReceipt) -> (r: Result<(), AgentError>)
    ensures
        model::result_view(r) == match receipt {
            FinalReceipt::Arrived(got) => model::result_view(got),
            FinalReceipt::Dropped => Err(
                AgentErrorView::Other("agent loop dropped without final result"@),
            ),
            FinalReceipt::Taken => Err(
                AgentErrorView::Other("agent loop final result already consumed"@),
            ),
        },
{
    match receipt {
        FinalReceipt::Arrived(got) => got,
        FinalReceipt::Dropped => Err(
            AgentError::Other("agent loop dropped without final result".to_owned()),
        ),
        FinalReceipt::Taken => Err(
            AgentError::Other("agent loop final result already consumed".to_owned()),
        ),
    }
}

/// What a run gives back when it is over: all its events, and their summary.
#[derive(Debug, PartialEq, Eq)]
pub struct RunOutput {
    /// Every event, in order.
    pub events: Vec<AgentEvent>,
    /// The assistant text of all turns.
    pub text: String,
    /// The number of turns.
    pub turns: u32,
    /// Why the run ended.
    pub reason: FinishReason,
    /// What all turns cost.
    pub usage: Usage,
}

/// Model of a run's output.
#[verifier::ext_equal]
pub struct RunOutputView {
    pub events: Seq<AgentEventView>,
    pub text: Seq<char>,
    pub turns: u32,
    pub reason: FinishReason,
    pub usage: Usage,
}

impl View for RunOutput {
    type V = RunOutputView;

    open spec fn view(&self) -> RunOutputView {
        RunOutputView {
            events: self.events.deep_view(),
            text: self.text@,
            turns: self.turns,
            reason: self.reason,
            usage: self.usage,
        }
    }
}

/// The output of a run that has told nothing yet.
pub open spec fn no_output() -> RunOutputView {
    RunOutputView {
        events: Seq::empty(),
        text: Seq::empty(),
        turns: 0,
        reason: FinishReason::Other,
        usage: event::no_usage(),
    }
}

/// The output after one more event.
pub open spec fn output_with(o: RunOutputView, e: AgentEventView) -> RunOutputView {
    let events = o.events.push(e);
    match e {
        AgentEventView::TextDelta { delta, .. } => RunOutputView {
            events,
            text: o.text + delta,
            turns: o.turns,
            reason: o.reason,
            usage: o.usage,
        },
        AgentEventView::Finish { turns, reason, usage } => RunOutputView {
            events,
            text: o.text,
            turns,
            reason,
            usage,
        },
        _ => RunOutputView {
            events,
            text: o.text,
            turns: o.turns,
            reason: o.reason,
            usage: o.usage,
        },
    }
}

/// The output of a run that has told these events.
pub open spec fn output_of(events: Seq<AgentEventView>) -> RunOutputView
    decreases events.len(),
{
    if events.len() == 0 {
        no_output()
    } else {
        output_with(output_of(events.drop_last()), events.last())
    }
}

impl RunOutput {
    /// The output of a run that has told nothing yet.
    pub fn new() -> (r: Self)
        ensures
            r@ == output_of(Seq::empty()),
    {
        RunOutput {
            events: Vec::new(),
            text: String::new(),
            turns: 0,
            reason: FinishReason::Other,
            usage: Usage { input_tokens: 0, output_tokens: 0, cached_input_tokens: 0 },
        }
    }

    /// Takes in the next event.
    pub fn collect(&mut self, event: AgentEvent)
        ensures
            final(self)@ == output_with(old(self)@, event@),
            old(self)@ == output_of(old(self).events.deep_view()) ==> final(self)@ == output_of(
                final(self).events.deep_view(),
            ),
    {
        let ghost told = event@;
        let ghost before = self@;
        match &event {
            AgentEvent::TextDelta { delta, .. } => {
                self.text.append(delta.as_str());
            },
            AgentEvent::Finish { turns, reason, usage } => {
                self.turns = *turns;
                self.reason = *reason;
                self.usage = *usage;
            },
            _ => {},
        }
        self.events.push(event);
        assert(self.events.deep_view() =~= before.events.push(told));
        assert(self.events.deep_view().drop_last() =~= before.events);
    }
}

/// The text of a run's output is the text of its events, one fragment after the other, and the
/// events are all there.
pub proof fn law_output_text(events: Seq<AgentEventView>)
    ensures
        output_of(events).events == events,
        output_of(events).text == crate::agent::turn::told_text(events),
    decreases events.len(),
{
    if events.len() > 0 {
        law_output_text(events.drop_last());
        assert(events.drop_last().push(events.last()) =~= events);
    }
}

/// Adding up usages does not depend on the order, and nothing is added by a turn without cost.
pub proof fn law_usage_sum(a: Usage, b: Usage, c: Usage)
    ensures
        usage_sum(a, b) == usage_sum(b, a),
        usage_sum(usage_sum(a, b), c) == usage_sum(a, usage_sum(b, c)),
        usage_sum(a, event::no_usage()) == a,
{
}

} // verus!
