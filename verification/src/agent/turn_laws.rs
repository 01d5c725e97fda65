//! What a turn comes to, out of what its stream gave.

use crate::agent::error::AgentErrorView;
use crate::agent::event::AgentEventView;
use crate::agent::turn;
use crate::agent::turn::{AccumView, TurnView};
use crate::flat;
use crate::json;
use crate::json::JsonView;
use crate::language_model::error::ModelErrorView;
use crate::language_model::event::{FinishReason, ModelEventView, Usage};
use crate::language_model::message::{ContentBlockView, Role};
use crate::text;
use vstd::prelude::*;

verus! {

/// What the stream gave: an event, or an error.
pub type Given = Result<ModelEventView, ModelErrorView>;

/// The text in what the stream gave.
pub open spec fn text_in(e: Given) -> Seq<char> {
    match e {
        Ok(ModelEventView::TextDelta { delta }) => delta,
        _ => Seq::empty(),
    }
}

/// The reasoning in what the stream gave.
pub open spec fn reasoning_in(e: Given) -> Seq<char> {
    match e {
        Ok(ModelEventView::ReasoningDelta { delta }) => delta,
        _ => Seq::empty(),
    }
}

/// The signature in what the stream gave.
pub open spec fn signature_in(e: Given) -> Seq<Seq<char>> {
    match e {
        Ok(ModelEventView::ReasoningSignature { signature }) => seq![signature],
        _ => Seq::empty(),
    }
}

/// The end in what the stream gave.
pub open spec fn end_in(e: Given) -> Seq<(FinishReason, Usage)> {
    match e {
        Ok(ModelEventView::Finish { reason, usage }) => seq![(reason, usage)],
        _ => Seq::empty(),
    }
}

/// The fragment of the arguments of the call with an identifier in what the stream gave.
pub open spec fn fragment_in(e: Given, id: Seq<char>) -> Seq<char> {
    match e {
        Ok(ModelEventView::ToolCallDelta { id: of, arguments_delta }) => if of == id {
            arguments_delta
        } else {
            Seq::empty()
        },
        _ => Seq::empty(),
    }
}

/// The whole arguments of the call with an identifier in what the stream gave.
pub open spec fn whole_in(e: Given, id: Seq<char>) -> Seq<JsonView> {
    match e {
        Ok(ModelEventView::ToolCallEnd { id: of, arguments }) => if of == id && arguments is Some {
            seq![arguments->0]
        } else {
            Seq::empty()
        },
        _ => Seq::empty(),
    }
}

/// The last of some values.
pub open spec fn last_of<A>(s: Seq<A>) -> Option<A> {
    if s.len() == 0 {
        None
    } else {
        Some(s.last())
    }
}

pub(crate) proof fn lemma_last<A>(had: Seq<A>, more: Seq<A>)
    requires
        more.len() <= 1,
    ensures
        last_of(had + more) == if more.len() == 0 {
            last_of(had)
        } else {
            Some(more[0])
        },
{
    if more.len() == 0 {
        assert(had + more =~= had);
    }
}

/// Whether a turn holds what the stream gave: its text and its reasoning, fragment by fragment, the
/// last signature, and the last end.
pub open spec fn holds(t: TurnView, events: Seq<Given>) -> bool {
    let ends = events.flat_map(|e: Given| end_in(e));
    &&& t.text == events.flat_map(|e: Given| text_in(e))
    &&& t.reasoning == events.flat_map(|e: Given| reasoning_in(e))
    &&& t.signature == last_of(events.flat_map(|e: Given| signature_in(e)))
    &&& match last_of(ends) {
        None => t.finish is None && t.usage.input_tokens == 0 && t.usage.output_tokens == 0
            && t.usage.cached_input_tokens == 0,
        Some(end) => t.finish == Some(end.0) && t.usage == end.1,
    }
}

proof fn lemma_holds(turn: u32, events: Seq<Given>)
    ensures
        turn::turn_run(turn::new_turn(turn), events) matches Ok(r) ==> holds(r.0, events)
            && r.0.turn == turn,
    decreases events.len(),
{
    let a = |e: Given| text_in(e);
    let b = |e: Given| reasoning_in(e);
    let c = |e: Given| signature_in(e);
    let d = |e: Given| end_in(e);
    if events.len() == 0 {
        flat::lemma_flat_empty(events, a);
        flat::lemma_flat_empty(events, b);
        flat::lemma_flat_empty(events, c);
        flat::lemma_flat_empty(events, d);
    } else {
        let front = events.drop_last();
        let e = events.last();
        lemma_holds(turn, front);
        flat::lemma_flat_last(events, a);
        flat::lemma_flat_last(events, b);
        flat::lemma_flat_last(events, c);
        flat::lemma_flat_last(events, d);
        lemma_last(front.flat_map(c), signature_in(e));
        lemma_last(front.flat_map(d), end_in(e));
        match turn::turn_run(turn::new_turn(turn), front) {
            Ok((before, _)) => {
                match turn::turn_step(before, e) {
                    Ok((after, _)) => {
                        assert(after.text =~= before.text + text_in(e));
                        assert(after.reasoning =~= before.reasoning + reasoning_in(e));
                    },
                    Err(_) => {},
                }
            },
            Err(_) => {},
        }
    }
}

spec fn call_holds(t: TurnView, events: Seq<Given>, id: Seq<char>) -> bool {
    let call = turn::call_of(t.calls, id);
    &&& call.arg_buffer == events.flat_map(|e: Given| fragment_in(e, id))
    &&& call.final_args == last_of(events.flat_map(|e: Given| whole_in(e, id)))
}

proof fn lemma_call_holds(turn: u32, events: Seq<Given>, id: Seq<char>)
    ensures
        turn::turn_run(turn::new_turn(turn), events) matches Ok(r) ==> call_holds(r.0, events, id)
            && turn::distinct_ids(r.0.calls),
    decreases events.len(),
{
    let a = |e: Given| fragment_in(e, id);
    let b = |e: Given| whole_in(e, id);
    if events.len() == 0 {
        flat::lemma_flat_empty(events, a);
        flat::lemma_flat_empty(events, b);
    } else {
        let front = events.drop_last();
        let e = events.last();
        lemma_call_holds(turn, front, id);
        flat::lemma_flat_last(events, a);
        flat::lemma_flat_last(events, b);
        lemma_last(front.flat_map(b), whole_in(e, id));
        match turn::turn_run(turn::new_turn(turn), front) {
            Ok((t, _)) => {
                let mine = turn::call_of(t.calls, id);
                assert(mine.arg_buffer + Seq::<char>::empty() =~= mine.arg_buffer);
                match e {
                    Ok(ModelEventView::ToolCallStart { id: key, name }) => {
                        let call = turn::call_of(t.calls, key);
                        turn::lemma_call_of_id(t.calls, key);
                        let new = AccumView { name, order: t.next_order, announced: true, ..call };
                        turn::lemma_call_of_with(t.calls, key, new, id);
                        turn::lemma_distinct_kept(t.calls, key, new);
                    },
                    Ok(ModelEventView::ToolCallDelta { id: key, arguments_delta }) => {
                        let call = turn::call_of(t.calls, key);
                        turn::lemma_call_of_id(t.calls, key);
                        let new = AccumView {
                            arg_buffer: call.arg_buffer + arguments_delta,
                            ..call
                        };
                        turn::lemma_call_of_with(t.calls, key, new, id);
                        turn::lemma_distinct_kept(t.calls, key, new);
                    },
                    Ok(ModelEventView::ToolCallEnd { id: key, arguments }) => {
                        let call = turn::call_of(t.calls, key);
                        turn::lemma_call_of_id(t.calls, key);
                        let new = AccumView {
                            final_args: if arguments is Some {
                                arguments
                            } else {
                                call.final_args
                            },
                            ..call
                        };
                        turn::lemma_call_of_with(t.calls, key, new, id);
                        turn::lemma_distinct_kept(t.calls, key, new);
                    },
                    _ => {},
                }
            },
            Err(_) => {},
        }
    }
}

/// Whether arguments are those that the stream gave the call with an identifier: the last that it
/// gave as a whole; or else the empty object, where the fragments are blank; or else what the
/// fragments, one after the other, read as.
pub open spec fn arguments_fit(events: Seq<Given>, id: Seq<char>, arguments: JsonView) -> bool {
    let fragments = events.flat_map(|e: Given| fragment_in(e, id));
    match last_of(events.flat_map(|e: Given| whole_in(e, id))) {
        Some(whole) => arguments == whole,
        None => if text::trimmed(fragments).len() == 0 {
            arguments == JsonView::Raw("{}"@)
        } else {
            json::json_value(fragments) == Ok::<_, Seq<char>>(arguments)
        },
    }
}

/// What a turn comes to is what its stream gave. The message of the assistant holds the reasoning
/// with its last signature, then the text, then the tool calls, as far as there are any; each call
/// has the arguments that the stream gave it; and the reason and the cost are those of the last end.
pub proof fn law_turn_comes_to_what_it_gave(turn: u32, events: Seq<Given>)
    ensures
        match turn::turn_run(turn::new_turn(turn), events) {
            Err(_) => true,
            Ok((t, _)) => {
                let ordered = turn::ordered_turn(t);
                let text = events.flat_map(|e: Given| text_in(e));
                let reasoning = events.flat_map(|e: Given| reasoning_in(e));
                match turn::turn_outcome(ordered, turn::turn_args(ordered)) {
                    Err(e) => e is InvalidToolArguments,
                    Ok(o) => {
                        &&& o.assistant_message.role == Role::Assistant
                        &&& o.assistant_message.content == (if reasoning.len() == 0 {
                            Seq::empty()
                        } else {
                            seq![
                                ContentBlockView::Reasoning {
                                    text: reasoning,
                                    signature: last_of(
                                        events.flat_map(|e: Given| signature_in(e)),
                                    ),
                                },
                            ]
                        }) + (if text.len() == 0 {
                            Seq::empty()
                        } else {
                            seq![ContentBlockView::Text { text }]
                        }) + Seq::new(
                            o.tool_uses.len(),
                            |i: int|
                                ContentBlockView::ToolUse {
                                    id: o.tool_uses[i].id,
                                    name: o.tool_uses[i].name,
                                    input: o.tool_uses[i].arguments,
                                },
                        )
                        &&& match last_of(events.flat_map(|e: Given| end_in(e))) {
                            None => o.finish_reason == FinishReason::Other && o.usage.input_tokens
                                == 0 && o.usage.output_tokens == 0 && o.usage.cached_input_tokens
                                == 0,
                            Some(end) => o.finish_reason == end.0 && o.usage == end.1,
                        }
                        &&& o.tool_uses.len() == t.calls.len()
                        &&& forall|i: int|
                            0 <= i < o.tool_uses.len() ==> arguments_fit(
                                events,
                                (#[trigger] o.tool_uses[i]).id,
                                o.tool_uses[i].arguments,
                            )
                    },
                }
            },
        },
{
    match turn::turn_run(turn::new_turn(turn), events) {
        Err(_) => {},
        Ok((t, _)) => {
            lemma_holds(turn, events);
            let ordered = turn::ordered_turn(t);
            let args = turn::turn_args(ordered);
            turn::lemma_first_error(args);
            turn::law_by_order(t.calls);
            match turn::turn_outcome(ordered, args) {
                Err(_) => {},
                Ok(o) => {
                    assert forall|i: int| 0 <= i < o.tool_uses.len() implies arguments_fit(
                        events,
                        (#[trigger] o.tool_uses[i]).id,
                        o.tool_uses[i].arguments,
                    ) by {
                        let call = ordered.calls[i];
                        lemma_call_holds(turn, events, call.id);
                        lemma_is_its_own(t.calls, i);
                    }
                    assert(o.assistant_message.content =~= (if t.reasoning.len() == 0 {
                        Seq::empty()
                    } else {
                        seq![
                            ContentBlockView::Reasoning {
                                text: t.reasoning,
                                signature: t.signature,
                            },
                        ]
                    }) + (if t.text.len() == 0 {
                        Seq::empty()
                    } else {
                        seq![ContentBlockView::Text { text: t.text }]
                    }) + Seq::new(
                        o.tool_uses.len(),
                        |i: int|
                            ContentBlockView::ToolUse {
                                id: o.tool_uses[i].id,
                                name: o.tool_uses[i].name,
                                input: o.tool_uses[i].arguments,
                            },
                    ));
                },
            }
        },
    }
}

proof fn lemma_is_its_own(calls: Seq<AccumView>, i: int)
    requires
        turn::distinct_ids(calls),
        0 <= i < calls.len(),
    ensures
        turn::call_of(calls, turn::by_order(calls)[i].id) == turn::by_order(calls)[i],
{
    broadcast use vstd::seq_lib::group_to_multiset_ensures;

    turn::law_by_order(calls);
    let sorted = turn::by_order(calls);
    let call = sorted[i];
    assert(sorted.contains(call));
    assert(sorted.to_multiset().count(call) > 0);
    assert(calls.contains(call));
    let k = choose|k: int| 0 <= k < calls.len() && calls[k] == call;
    turn::lemma_call_index(calls, call.id);
    turn::lemma_first_index(calls, call.id);
    let at = turn::call_index(calls, call.id);
    if at < k {
        assert(calls[at].id != calls[k].id);
    }
}

/// What the caller is told of a turn bears its number, and the ends of the calls are told with their
/// arguments: one for each, in order, where all arguments could be read.
pub proof fn law_call_ends(t: TurnView)
    ensures
        ({
            let args = turn::turn_args(t);
            let ends = turn::end_events(t, args);
            turn::turn_outcome(t, args) matches Ok(o) ==> {
                &&& ends.len() == o.tool_uses.len()
                &&& forall|i: int|
                    0 <= i < ends.len() ==> #[trigger] ends[i] == (AgentEventView::ToolCallEnd {
                        turn: t.turn,
                        id: o.tool_uses[i].id,
                        name: o.tool_uses[i].name,
                        arguments: o.tool_uses[i].arguments,
                    })
            }
        }),
{
}

/// Arguments that cannot be read end the turn, with the name of the first such call and what the
/// reader said.
pub proof fn law_unreadable_arguments(t: TurnView, k: int, message: Seq<char>)
    requires
        0 <= k < t.calls.len(),
        forall|i: int| 0 <= i < k ==> turn::call_args(#[trigger] t.calls[i]) is Ok,
        t.calls[k].final_args is None,
        text::trimmed(t.calls[k].arg_buffer).len() > 0,
        json::json_value(t.calls[k].arg_buffer) == Err::<JsonView, _>(message),
    ensures
        turn::turn_outcome(t, turn::turn_args(t)) == Err::<turn::TurnOutcomeView, _>(
            AgentErrorView::InvalidToolArguments { name: t.calls[k].name, message },
        ),
{
    let args = turn::turn_args(t);
    turn::lemma_first_error(args);
    assert(args[k] is Err);
    let first = turn::first_error(args);
    if first < k {
        assert(args[first] == turn::call_args(t.calls[first]));
    }
}

/// What the caller is told of an event: text and reasoning as they came, and the start of a call the
/// first time; nothing of anything else.
pub proof fn law_event_is_told(t: TurnView, e: Given)
    ensures
        match turn::turn_step(t, e) {
            Err(_) => e is Err || e->Ok_0 is Error,
            Ok((after, told)) => {
                &&& e is Ok
                &&& after.turn == t.turn
                &&& match e->Ok_0 {
                    ModelEventView::TextDelta { delta } => told == Some(
                        AgentEventView::TextDelta { turn: t.turn, delta },
                    ),
                    ModelEventView::ReasoningDelta { delta } => told == Some(
                        AgentEventView::ReasoningDelta { turn: t.turn, delta },
                    ),
                    ModelEventView::ToolCallStart { id, name } => if turn::call_of(
                        t.calls,
                        id,
                    ).announced {
                        told is None
                    } else {
                        told == Some(AgentEventView::ToolCallStart { turn: t.turn, id, name })
                    },
                    _ => told is None,
                }
            },
        },
{
}

} // verus!
