//! Conditions on which a run ends.
//!
//! A condition is asked at the end of each turn with tool calls. Conditions compose with
//! [`StopConditionExt::or`] and [`StopConditionExt::and`].

use crate::language_model::event::FinishReason;
use std::sync::Arc;
use vstd::prelude::*;

verus! {

/// What a condition gets to see at the end of a turn.
#[derive(Debug, Clone, Copy, PartialEq, Eq, Structural)]
pub struct LoopState {
    /// The number of turns that are complete.
    pub turns: u32,
    /// Why the provider stopped in the turn that just ended.
    pub last_reason: FinishReason,
    /// The number of tool calls in that turn. Zero means a plain reply.
    pub last_tool_call_count: u32,
}

/// A condition on which a run ends.
pub trait StopCondition: Send + Sync + 'static {
    /// Whether the run ends in this state.
    spec fn stops(&self, state: LoopState) -> bool;

    /// Whether the run ends in this state.
    fn should_stop(&self, state: &LoopState) -> (r: bool)
        ensures
            r == self.stops(*state),
    ;
}

/// Never: the run ends when the model calls no more tools, or at the limit of turns.
#[derive(Debug)]
pub struct Never;

impl Default for Never {
    fn default() -> (r: Self)
        ensures
            r == Never,
    {
        Never
    }
}

impl StopCondition for Never {
    open spec fn stops(&self, state: LoopState) -> bool {
        false
    }

    fn should_stop(&self, state: &LoopState) -> (r: bool) {
        false
    }
}

/// After the given number of turns.
#[derive(Debug)]
pub struct StopCountIs(pub u32);

impl StopCondition for StopCountIs {
    open spec fn stops(&self, state: LoopState) -> bool {
        state.turns >= self.0
    }

    fn should_stop(&self, state: &LoopState) -> (r: bool) {
        state.turns >= self.0
    }
}

/// After the first turn without tool calls.
#[derive(Debug)]
pub struct NoToolCalls;

impl Default for NoToolCalls {
    fn default() -> (r: Self)
        ensures
            r == NoToolCalls,
    {
        NoToolCalls
    }
}

impl StopCondition for NoToolCalls {
    open spec fn stops(&self, state: LoopState) -> bool {
        state.last_tool_call_count == 0
    }

    fn should_stop(&self, state: &LoopState) -> (r: bool) {
        state.last_tool_call_count == 0
    }
}

/// Stops once `n` turns are complete.
pub fn stop_count_is(n: u32) -> (r: Arc<StopCountIs>)
    ensures
        *r == StopCountIs(n),
{
    Arc::new(StopCountIs(n))
}

/// Stops at the first turn without tool calls.
pub fn no_tool_calls() -> (r: Arc<NoToolCalls>)
    ensures
        *r == NoToolCalls,
{
    Arc::new(NoToolCalls)
}

/// When either condition holds.
pub struct Or<A: StopCondition, B: StopCondition>(pub A, pub B);

impl<A: StopCondition, B: StopCondition> StopCondition for Or<A, B> {
    open spec fn stops(&self, state: LoopState) -> bool {
        self.0.stops(state) || self.1.stops(state)
    }

    fn should_stop(&self, state: &LoopState) -> (r: bool) {
        self.0.should_stop(state) || self.1.should_stop(state)
    }
}

/// When both conditions hold.
pub struct And<A: StopCondition, B: StopCondition>(pub A, pub B);

impl<A: StopCondition, B: StopCondition> StopCondition for And<A, B> {
    open spec fn stops(&self, state: LoopState) -> bool {
        self.0.stops(state) && self.1.stops(state)
    }

    fn should_stop(&self, state: &LoopState) -> (r: bool) {
        self.0.should_stop(state) && self.1.should_stop(state)
    }
}

/// Composition of conditions.
pub trait StopConditionExt: StopCondition + Sized {
    /// This condition or the other.
    fn or<B: StopCondition>(self, other: B) -> (r: Or<Self, B>)
        ensures
            r == Or(self, other),
    {
        Or(self, other)
    }

    /// This condition and the other.
    fn and<B: StopCondition>(self, other: B) -> (r: And<Self, B>)
        ensures
            r == And(self, other),
    {
        And(self, other)
    }
}

impl<T: StopCondition + Sized> StopConditionExt for T {

}

/// A shared condition is a condition.
impl<T: StopCondition + ?Sized> StopCondition for Arc<T> {
    open spec fn stops(&self, state: LoopState) -> bool {
        (**self).stops(state)
    }

    fn should_stop(&self, state: &LoopState) -> (r: bool) {
        (**self).should_stop(state)
    }
}

/// When each of the conditions stops a run.
pub proof fn law_conditions<A: StopCondition, B: StopCondition>(a: A, b: B, n: u32, state: LoopState)
    ensures
        !Never.stops(state),
        StopCountIs(n).stops(state) <==> n <= state.turns,
        NoToolCalls.stops(state) <==> state.last_tool_call_count == 0,
        Or(a, b).stops(state) <==> a.stops(state) || b.stops(state),
        And(a, b).stops(state) <==> a.stops(state) && b.stops(state),
{
}

} // verus!
