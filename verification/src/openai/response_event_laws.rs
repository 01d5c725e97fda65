//! What the events of Responses say, and what is told of them.

use crate::flat;
use crate::json;
use crate::key_map;
use crate::language_model::event::{FinishReason, ModelEventView};
use crate::openai::chat_event_laws;
use crate::openai::event_map_responses;
use crate::openai::event_map_responses::{ItemKindView, ResponsesMapperView};
use crate::openai::responses;
use crate::openai::responses::{
    CompletedResponse, ResponsesEvent, ResponsesEventKind, ResponsesOutputItem,
};
use vstd::prelude::*;

verus! {

/// The mapper after some events, and what is told of them.
pub open spec fn all_mapped(events: Seq<ResponsesEvent>) -> (ResponsesMapperView, Seq<ModelEventView>)
    decreases events.len(),
{
    if events.len() == 0 {
        (event_map_responses::new_mapper(), Seq::empty())
    } else {
        let (before, told) = all_mapped(events.drop_last());
        let (after, more) = event_map_responses::mapped(before, events.last());
        (after, told + more)
    }
}

/// The text in an event.
pub open spec fn text_in(ev: ResponsesEvent) -> Seq<char> {
    match ev {
        ResponsesEvent::OutputTextDelta(e) => e.delta@,
        _ => Seq::empty(),
    }
}

/// The reasoning in an event.
pub open spec fn reasoning_in(ev: ResponsesEvent) -> Seq<char> {
    match ev {
        ResponsesEvent::ReasoningSummaryDelta(e) => e.delta@,
        _ => Seq::empty(),
    }
}

/// The identifier under which the call that an item is goes: its own, or that of the item.
pub open spec fn call_of(item: ResponsesOutputItem) -> Seq<char> {
    if item.call_id is Some {
        item.call_id->0@
    } else {
        item.id->0@
    }
}

/// The call that the item with an identifier is, after some events: none before it has begun as a
/// call, and none once it is done.
pub open spec fn call_open(events: Seq<ResponsesEvent>, id: Seq<char>) -> Option<Seq<char>>
    decreases events.len(),
{
    if events.len() == 0 {
        None
    } else {
        match events.last() {
            ResponsesEvent::OutputItemAdded(e) => if e.item.id is Some && e.item.id->0@ == id {
                if e.item.kind@ == "function_call"@ {
                    Some(call_of(e.item))
                } else {
                    None
                }
            } else {
                call_open(events.drop_last(), id)
            },
            ResponsesEvent::OutputItemDone(e) => if e.item.id is Some && e.item.id->0@ == id {
                None
            } else {
                call_open(events.drop_last(), id)
            },
            _ => call_open(events.drop_last(), id),
        }
    }
}

/// Whether an event begins a tool call.
pub open spec fn begins_call(ev: ResponsesEvent) -> bool {
    ev matches ResponsesEvent::OutputItemAdded(e) && e.item.id is Some && e.item.kind@
        == "function_call"@
}

/// Whether some events begin a tool call.
pub open spec fn calls_begun(events: Seq<ResponsesEvent>) -> bool {
    exists|i: int| 0 <= i < events.len() && begins_call(#[trigger] events[i])
}

spec fn call_in(m: ResponsesMapperView, id: Seq<char>) -> Option<Seq<char>> {
    match key_map::get(m.items, id) {
        Some(ItemKindView::FunctionCall { call_id }) => Some(call_id),
        _ => None,
    }
}

spec fn agrees(m: ResponsesMapperView, events: Seq<ResponsesEvent>) -> bool {
    &&& forall|id: Seq<char>| #[trigger] call_open(events, id) == call_in(m, id)
    &&& key_map::in_order::<String, ItemKindView>(m.items)
    &&& m.had_function_call == calls_begun(events)
}

proof fn lemma_kinds()
    ensures
        "message"@ != "function_call"@,
        "reasoning"@ != "function_call"@,
{
    reveal_strlit("message");
    reveal_strlit("function_call");
    reveal_strlit("reasoning");
    assert("message"@.len() == 7 && "function_call"@.len() == 13 && "reasoning"@.len() == 9);
}

proof fn lemma_begun(events: Seq<ResponsesEvent>)
    requires
        events.len() > 0,
    ensures
        calls_begun(events) == (calls_begun(events.drop_last()) || begins_call(events.last())),
{
    let front = events.drop_last();
    if calls_begun(events) {
        let i = choose|i: int| 0 <= i < events.len() && begins_call(#[trigger] events[i]);
        if i < front.len() {
            assert(begins_call(front[i]));
        }
    }
    if calls_begun(front) {
        let i = choose|i: int| 0 <= i < front.len() && begins_call(#[trigger] front[i]);
        assert(begins_call(events[i]));
    }
    if begins_call(events.last()) {
        assert(begins_call(events[events.len() - 1]));
    }
}

proof fn lemma_agrees(events: Seq<ResponsesEvent>)
    ensures
        agrees(all_mapped(events).0, events),
    decreases events.len(),
{
    if events.len() > 0 {
        let front = events.drop_last();
        let ev = events.last();
        lemma_agrees(front);
        lemma_begun(events);
        lemma_kinds();
        let before = all_mapped(front).0;
        let after = all_mapped(events).0;
        match ev {
            ResponsesEvent::OutputItemAdded(e) => {
                if e.item.id is Some {
                    let key = e.item.id->0@;
                    let kind = if e.item.kind@ == "message"@ {
                        ItemKindView::Message
                    } else if e.item.kind@ == "function_call"@ {
                        ItemKindView::FunctionCall { call_id: call_of(e.item) }
                    } else if e.item.kind@ == "reasoning"@ {
                        ItemKindView::Reasoning
                    } else {
                        ItemKindView::Other
                    };
                    assert(after.items == key_map::put::<String, ItemKindView>(
                        before.items,
                        key,
                        kind,
                    ));
                    key_map::law_put_in_order::<String, ItemKindView>(before.items, key, kind);
                    assert forall|id: Seq<char>| #[trigger] call_open(events, id) == call_in(
                        after,
                        id,
                    ) by {
                        assert(call_open(front, id) == call_in(before, id));
                        key_map::law_put_get::<String, ItemKindView>(before.items, key, kind, id);
                    }
                } else {
                    assert forall|id: Seq<char>| #[trigger] call_open(events, id) == call_in(
                        after,
                        id,
                    ) by {
                        assert(call_open(front, id) == call_in(before, id));
                    }
                }
            },
            ResponsesEvent::OutputItemDone(e) => {
                if e.item.id is Some {
                    let key = e.item.id->0@;
                    key_map::law_without_in_order::<String, ItemKindView>(before.items, key);
                    assert forall|id: Seq<char>| #[trigger] call_open(events, id) == call_in(
                        after,
                        id,
                    ) by {
                        assert(call_open(front, id) == call_in(before, id));
                        key_map::law_without_get::<String, ItemKindView>(before.items, key, id);
                    }
                } else {
                    assert forall|id: Seq<char>| #[trigger] call_open(events, id) == call_in(
                        after,
                        id,
                    ) by {
                        assert(call_open(front, id) == call_in(before, id));
                    }
                }
            },
            _ => {
                assert forall|id: Seq<char>| #[trigger] call_open(events, id) == call_in(
                    after,
                    id,
                ) by {
                    assert(call_open(front, id) == call_in(before, id));
                }
            },
        }
    }
}

/// What is told of an event that follows some others: text and reasoning as they came, the start of
/// a call under its identifier and its name, fragments of its arguments and its end under the same
/// identifier, and nothing of an item that is no open call.
pub proof fn law_event_is_told(events: Seq<ResponsesEvent>, ev: ResponsesEvent)
    ensures
        ({
            let told = event_map_responses::mapped(all_mapped(events).0, ev).1;
            match ev {
                ResponsesEvent::OutputTextDelta(e) => if e.delta@.len() == 0 {
                    told.len() == 0
                } else {
                    told == seq![ModelEventView::TextDelta { delta: e.delta@ }]
                },
                ResponsesEvent::ReasoningSummaryDelta(e) => if e.delta@.len() == 0 {
                    told.len() == 0
                } else {
                    told == seq![ModelEventView::ReasoningDelta { delta: e.delta@ }]
                },
                ResponsesEvent::OutputItemAdded(e) => if begins_call(ev) {
                    &&& told.len() == 1
                    &&& told[0] matches ModelEventView::ToolCallStart { id, name }
                    &&& id == call_of(e.item)
                    &&& name == if e.item.name is Some {
                        e.item.name->0@
                    } else {
                        Seq::empty()
                    }
                } else {
                    told.len() == 0
                },
                ResponsesEvent::FunctionCallArgsDelta(e) => match call_open(events, e.item_id@) {
                    Some(id) => told == seq![
                        ModelEventView::ToolCallDelta { id, arguments_delta: e.delta@ },
                    ],
                    None => told.len() == 0,
                },
                ResponsesEvent::OutputItemDone(e) => if e.item.id is Some && call_open(
                    events,
                    e.item.id->0@,
                ) is Some {
                    &&& told.len() == 1
                    &&& told[0] matches ModelEventView::ToolCallEnd { id, arguments }
                    &&& Some(id) == call_open(events, e.item.id->0@)
                    &&& match e.item.arguments {
                        None => arguments is None,
                        Some(text) => match json::json_value(text@) {
                            Ok(j) => arguments == Some(j),
                            Err(_) => arguments is None,
                        },
                    }
                } else {
                    told.len() == 0
                },
                ResponsesEvent::Completed(e) => {
                    &&& told.len() == 1
                    &&& told[0] matches ModelEventView::Finish { reason, usage }
                    &&& ended_for(e.response, calls_begun(events), reason)
                    &&& match e.response.usage {
                        None => usage.input_tokens == 0 && usage.output_tokens == 0
                            && usage.cached_input_tokens == 0,
                        Some(u) => {
                            &&& usage.input_tokens == u.input_tokens
                            &&& usage.output_tokens == u.output_tokens
                            &&& usage.cached_input_tokens == if u.input_tokens_details is Some {
                                u.input_tokens_details->0.cached_tokens
                            } else {
                                0
                            }
                        },
                    }
                },
                ResponsesEvent::Failed(e) => {
                    &&& told.len() == 1
                    &&& told[0] matches ModelEventView::Error { message }
                    &&& message == match e.response.error.code {
                        Some(code) => code@ + ": "@ + e.response.error.message@,
                        None => e.response.error.message@,
                    }
                },
                ResponsesEvent::Ignored => told.len() == 0,
            }
        }),
{
    lemma_agrees(events);
    lemma_kinds();
    let m = all_mapped(events).0;
    match ev {
        ResponsesEvent::FunctionCallArgsDelta(e) => {
            assert(call_open(events, e.item_id@) == call_in(m, e.item_id@));
        },
        ResponsesEvent::OutputItemDone(e) => {
            if e.item.id is Some {
                assert(call_open(events, e.item.id->0@) == call_in(m, e.item.id->0@));
            }
        },
        ResponsesEvent::Completed(e) => {
            reveal_strlit("max_output_tokens");
            reveal_strlit("content_filter");
            assert("max_output_tokens"@.len() == 17 && "content_filter"@.len() == 14);
        },
        _ => {},
    }
}

/// Whether a response ended for a reason: what the provider says cut it short, or else a tool call
/// where there was one, or else a plain stop.
pub open spec fn ended_for(response: CompletedResponse, calls: bool, reason: FinishReason) -> bool {
    if response.incomplete_details is Some {
        let why = response.incomplete_details->0.reason@;
        &&& why == "max_output_tokens"@ ==> reason == FinishReason::Length
        &&& why == "content_filter"@ ==> reason == FinishReason::ContentFilter
        &&& why != "max_output_tokens"@ && why != "content_filter"@ ==> reason
            == FinishReason::Other
    } else if response.status is Some && response.status->0@ == "incomplete"@ {
        reason == FinishReason::Length
    } else if calls {
        reason == FinishReason::ToolUse
    } else {
        reason == FinishReason::Stop
    }
}

/// The arguments that some events give the call with an identifier.
pub open spec fn arguments_given(events: Seq<ResponsesEvent>, id: Seq<char>) -> Seq<char>
    decreases events.len(),
{
    if events.len() == 0 {
        Seq::empty()
    } else {
        arguments_given(events.drop_last(), id) + match events.last() {
            ResponsesEvent::FunctionCallArgsDelta(e) => if call_open(
                events.drop_last(),
                e.item_id@,
            ) == Some(id) {
                e.delta@
            } else {
                Seq::empty()
            },
            _ => Seq::empty(),
        }
    }
}

/// What is told of some events is what is in them: the text, the reasoning and the arguments of each
/// call, in order, character for character.
pub proof fn law_content_is_told(events: Seq<ResponsesEvent>, id: Seq<char>)
    ensures
        all_mapped(events).1.flat_map(|e: ModelEventView| chat_event_laws::text_told(e))
            == events.flat_map(|e: ResponsesEvent| text_in(e)),
        all_mapped(events).1.flat_map(|e: ModelEventView| chat_event_laws::reasoning_told(e))
            == events.flat_map(|e: ResponsesEvent| reasoning_in(e)),
        all_mapped(events).1.flat_map(
            |e: ModelEventView| chat_event_laws::arguments_told(e, id),
        ) == arguments_given(events, id),
    decreases events.len(),
{
    let t = |e: ModelEventView| chat_event_laws::text_told(e);
    let r = |e: ModelEventView| chat_event_laws::reasoning_told(e);
    let g = |e: ModelEventView| chat_event_laws::arguments_told(e, id);
    let ti = |e: ResponsesEvent| text_in(e);
    let ri = |e: ResponsesEvent| reasoning_in(e);
    let all = all_mapped(events).1;
    if events.len() == 0 {
        flat::lemma_flat_empty(all, t);
        flat::lemma_flat_empty(all, r);
        flat::lemma_flat_empty(all, g);
        flat::lemma_flat_empty(events, ti);
        flat::lemma_flat_empty(events, ri);
    } else {
        let front = events.drop_last();
        law_content_is_told(front, id);
        law_event_is_told(front, events.last());
        let told = all_mapped(front).1;
        let more = event_map_responses::mapped(all_mapped(front).0, events.last()).1;
        flat::lemma_flat_join(told, more, t);
        flat::lemma_flat_join(told, more, r);
        flat::lemma_flat_join(told, more, g);
        flat::lemma_flat_last(events, ti);
        flat::lemma_flat_last(events, ri);
        if more.len() == 0 {
            flat::lemma_flat_empty(more, t);
            flat::lemma_flat_empty(more, r);
            flat::lemma_flat_empty(more, g);
        } else {
            assert(more =~= seq![more[0]]);
            flat::lemma_flat_one(more[0], t);
            flat::lemma_flat_one(more[0], r);
            flat::lemma_flat_one(more[0], g);
        }
        assert(all.flat_map(t) =~= events.flat_map(ti));
        assert(all.flat_map(r) =~= events.flat_map(ri));
        assert(all.flat_map(g) =~= arguments_given(events, id));
    }
}

/// The name of an event says what it is, and no other name does.
pub proof fn law_event_names(event: Seq<char>)
    ensures
        (responses::kind_of(event) == ResponsesEventKind::OutputItemAdded) == (event == "response.output_item.added"@),
        (responses::kind_of(event) == ResponsesEventKind::OutputTextDelta) == (event == "response.output_text.delta"@),
        (responses::kind_of(event) == ResponsesEventKind::FunctionCallArgsDelta) == (event == "response.function_call_arguments.delta"@),
        (responses::kind_of(event) == ResponsesEventKind::OutputItemDone) == (event == "response.output_item.done"@),
        (responses::kind_of(event) == ResponsesEventKind::ReasoningSummaryDelta) == (event == "response.reasoning_summary_text.delta"@),
        (responses::kind_of(event) == ResponsesEventKind::Completed) == (event == "response.completed"@),
        (responses::kind_of(event) == ResponsesEventKind::Failed) == (event == "response.failed"@),
{
    reveal_strlit("response.output_item.added");
    reveal_strlit("response.output_text.delta");
    reveal_strlit("response.function_call_arguments.delta");
    reveal_strlit("response.output_item.done");
    reveal_strlit("response.reasoning_summary_text.delta");
    reveal_strlit("response.completed");
    reveal_strlit("response.failed");
    assert("response.output_item.added"@[16] == 'i');
    assert("response.output_text.delta"@[16] == 't');
    assert("response.output_item.added"@.len() == 26);
    assert("response.output_text.delta"@.len() == 26);
    assert("response.function_call_arguments.delta"@.len() == 38);
    assert("response.output_item.done"@.len() == 25);
    assert("response.reasoning_summary_text.delta"@.len() == 37);
    assert("response.completed"@.len() == 18);
    assert("response.failed"@.len() == 15);
}

/// Whether one of the events ends the response.
pub open spec fn has_ended(events: Seq<ResponsesEvent>) -> bool {
    exists|i: int|
        0 <= i < events.len() && ((#[trigger] events[i]) is Completed || events[i] is Failed)
}

proof fn lemma_ended(events: Seq<ResponsesEvent>)
    ensures
        all_mapped(events).0.finished == has_ended(events),
    decreases events.len(),
{
    if events.len() > 0 {
        let front = events.drop_last();
        lemma_ended(front);
        event_map_responses::law_one_finish(all_mapped(front).0, events.last());
        if has_ended(front) {
            let i = choose|i: int|
                0 <= i < front.len() && ((#[trigger] front[i]) is Completed || front[i] is Failed);
            assert(events[i] == front[i]);
        }
        if has_ended(events) {
            let i = choose|i: int|
                0 <= i < events.len() && ((#[trigger] events[i]) is Completed || events[i]
                    is Failed);
            if i < front.len() {
                assert(front[i] == events[i]);
            }
        }
        assert(events[events.len() - 1] == events.last());
    }
}

/// Where the bytes end before the response does, the end is told in its place, without token counts;
/// where the response has ended, nothing more is told.
pub proof fn law_broken_off(events: Seq<ResponsesEvent>)
    ensures
        ({
            let told = event_map_responses::flushed(all_mapped(events).0).1;
            if has_ended(events) {
                told.len() == 0
            } else {
                &&& told.len() == 1
                &&& told[0] matches ModelEventView::Finish { reason, usage }
                &&& reason == FinishReason::Other
                &&& usage.input_tokens == 0
                &&& usage.output_tokens == 0
                &&& usage.cached_input_tokens == 0
            }
        }),
{
    lemma_ended(events);
}

} // verus!
