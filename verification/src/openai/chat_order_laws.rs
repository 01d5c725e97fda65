//! In which order the chunks of Chat Completions are told.

use crate::key_map;
use crate::language_model::event::ModelEventView;
use crate::openai::chat;
use crate::openai::chat::{ChatStreamChoice, ChatStreamChunk, ChatStreamToolCall};
use crate::openai::event_map_chat;
use crate::openai::event_map_chat::ChatMapperView;
use crate::openai::models;
use vstd::prelude::*;

verus! {

/// Whether one of the first events starts the call with an identifier.
pub open spec fn started_within(told: Seq<ModelEventView>, n: int, id: Seq<char>) -> bool {
    exists|j: int| 0 <= j < n && starts(#[trigger] told[j], id)
}

/// Whether an event starts the call with an identifier.
pub open spec fn starts(e: ModelEventView, id: Seq<char>) -> bool {
    e matches ModelEventView::ToolCallStart { id: of, .. } && of == id
}

/// Whether every fragment of arguments follows the start of its call.
pub open spec fn starts_come_first(told: Seq<ModelEventView>) -> bool {
    forall|k: int|
        0 <= k < told.len() && (#[trigger] told[k]) is ToolCallDelta ==> started_within(
            told,
            k,
            told[k]->ToolCallDelta_id,
        )
}

/// Whether every call that is open was started.
spec fn open_are_started(m: ChatMapperView, told: Seq<ModelEventView>) -> bool {
    forall|index: u32|
        (#[trigger] key_map::get(m.open_tools, index)) is Some ==> started_within(
            told,
            told.len() as int,
            key_map::get(m.open_tools, index)->0,
        )
}

spec fn in_step(m: ChatMapperView, told: Seq<ModelEventView>) -> bool {
    starts_come_first(told) && open_are_started(m, told)
}

proof fn lemma_longer(told: Seq<ModelEventView>, more: Seq<ModelEventView>, n: int, id: Seq<char>)
    requires
        0 <= n <= told.len(),
    ensures
        started_within(told, n, id) ==> forall|k: int|
            n <= k ==> #[trigger] started_within(told + more, k, id),
{
    if started_within(told, n, id) {
        let j = choose|j: int| 0 <= j < n && starts(#[trigger] told[j], id);
        assert((told + more)[j] == told[j]);
    }
}

proof fn lemma_event(m: ChatMapperView, told: Seq<ModelEventView>, e: ModelEventView)
    requires
        in_step(m, told),
        e is ToolCallDelta ==> started_within(
            told,
            told.len() as int,
            e->ToolCallDelta_id,
        ),
    ensures
        in_step(m, told + seq![e]),
{
    let all = told + seq![e];
    assert forall|k: int| 0 <= k < all.len() && (#[trigger] all[k]) is ToolCallDelta implies
        started_within(all, k, all[k]->ToolCallDelta_id) by {
        let id = all[k]->ToolCallDelta_id;
        if k < told.len() {
            assert(all[k] == told[k]);
            lemma_longer(told, seq![e], k, id);
        } else {
            lemma_longer(told, seq![e], told.len() as int, id);
        }
        assert(started_within(all, k, id));
    }
    assert forall|index: u32| (#[trigger] key_map::get(m.open_tools, index)) is Some implies
        started_within(all, all.len() as int, key_map::get(m.open_tools, index)->0) by {
        lemma_longer(
            told,
            seq![e],
            told.len() as int,
            key_map::get(m.open_tools, index)->0,
        );
    }
}

proof fn lemma_call(m: ChatMapperView, told: Seq<ModelEventView>, tc: ChatStreamToolCall)
    requires
        in_step(m, told),
    ensures
        in_step(
            event_map_chat::call_mapped(m, tc).0,
            told + event_map_chat::call_mapped(m, tc).1,
        ),
{
    let (after, more) = event_map_chat::call_mapped(m, tc);
    let arguments = event_map_chat::call_arguments(tc);
    assert(told + Seq::<ModelEventView>::empty() =~= told);
    match key_map::get(m.open_tools, tc.index) {
        Some(id) => {
            if arguments.len() > 0 {
                lemma_event(m, told, more[0]);
                assert(more =~= seq![more[0]]);
            }
        },
        None => match tc.id {
            Some(id) => {
                let start = more[0];
                let begun = told + seq![start];
                lemma_event(m, told, start);
                assert(starts(begun[told.len() as int], id@));
                assert(started_within(begun, begun.len() as int, id@));
                assert forall|index: u32|
                    (#[trigger] key_map::get(after.open_tools, index)) is Some implies
                    started_within(
                    begun,
                    begun.len() as int,
                    key_map::get(after.open_tools, index)->0,
                ) by {
                    key_map::law_put_get::<u32, Seq<char>>(m.open_tools, tc.index, id@, index);
                    if index != tc.index {
                        assert(key_map::get(m.open_tools, index) is Some);
                    }
                }
                if arguments.len() > 0 {
                    lemma_event(after, begun, more[1]);
                    assert(told + more =~= begun + seq![more[1]]);
                } else {
                    assert(told + more =~= begun);
                }
            },
            None => {},
        },
    }
}

proof fn lemma_calls(m: ChatMapperView, told: Seq<ModelEventView>, calls: Seq<ChatStreamToolCall>)
    requires
        in_step(m, told),
    ensures
        in_step(
            event_map_chat::calls_mapped(m, calls).0,
            told + event_map_chat::calls_mapped(m, calls).1,
        ),
    decreases calls.len(),
{
    if calls.len() == 0 {
        assert(told + Seq::<ModelEventView>::empty() =~= told);
    } else {
        let (before, had) = event_map_chat::calls_mapped(m, calls.drop_last());
        lemma_calls(m, told, calls.drop_last());
        lemma_call(before, told + had, calls.last());
        let more = event_map_chat::call_mapped(before, calls.last()).1;
        assert(told + had + more =~= told + (had + more));
    }
}

proof fn lemma_choices(m: ChatMapperView, told: Seq<ModelEventView>, choices: Seq<ChatStreamChoice>)
    requires
        in_step(m, told),
    ensures
        in_step(
            event_map_chat::choices_mapped(m, choices).0,
            told + event_map_chat::choices_mapped(m, choices).1,
        ),
    decreases choices.len(),
{
    if choices.len() == 0 {
        assert(told + Seq::<ModelEventView>::empty() =~= told);
    } else {
        let (before, had) = event_map_chat::choices_mapped(m, choices.drop_last());
        lemma_choices(m, told, choices.drop_last());
        let choice = choices.last();
        let text = event_map_chat::text_events(choice.delta.content);
        let all = told + had;
        if text.len() > 0 {
            lemma_event(before, all, text[0]);
            assert(text =~= seq![text[0]]);
        } else {
            assert(all + text =~= all);
        }
        lemma_calls(before, all + text, choice.delta.tool_calls@);
        let (after, more) = event_map_chat::calls_mapped(before, choice.delta.tool_calls@);
        let end = event_map_chat::choice_mapped(before, choice).0;
        assert(all + text + more =~= told + (had + (text + more)));
        assert(end.open_tools == after.open_tools);
    }
}

proof fn lemma_chunks(chunks: Seq<ChatStreamChunk>)
    ensures
        ({
            let (m, told) = event_map_chat::all_mapped(event_map_chat::new_mapper(), chunks);
            in_step(m, told)
        }),
    decreases chunks.len(),
{
    if chunks.len() > 0 {
        lemma_chunks(chunks.drop_last());
        let (before, told) = event_map_chat::all_mapped(
            event_map_chat::new_mapper(),
            chunks.drop_last(),
        );
        let chunk = chunks.last();
        let counted = match chunk.usage {
            Some(u) => ChatMapperView {
                usage: event_map_chat::larger_usage(
                    models::spec_usage(chat::wire_usage(u)),
                    before.usage,
                ),
                ..before
            },
            None => before,
        };
        assert(counted.open_tools == before.open_tools);
        lemma_choices(counted, told, chunk.choices@);
    }
}

/// In every stream the start of a call comes before the fragments of its arguments.
pub proof fn law_starts_come_first(chunks: Seq<ChatStreamChunk>)
    ensures
        starts_come_first(
            event_map_chat::all_mapped(event_map_chat::new_mapper(), chunks).1,
        ),
{
    lemma_chunks(chunks);
}

/// The text of a chunk comes before what it says of tools.
pub proof fn law_text_comes_first(m: ChatMapperView, chunk: ChatStreamChunk)
    requires
        chunk.choices@.len() == 1,
        chunk.choices@[0].delta.content matches Some(text) && text@.len() > 0,
    ensures
        event_map_chat::mapped(m, chunk).1.len() > 0,
        event_map_chat::mapped(m, chunk).1[0] == (ModelEventView::TextDelta {
            delta: chunk.choices@[0].delta.content->0@,
        }),
{
    let choices = chunk.choices@;
    let counted = match chunk.usage {
        Some(u) => ChatMapperView {
            usage: event_map_chat::larger_usage(
                models::spec_usage(chat::wire_usage(u)),
                m.usage,
            ),
            ..m
        },
        None => m,
    };
    assert(event_map_chat::choices_mapped(counted, choices.drop_last()).1.len() == 0);
    assert(event_map_chat::mapped(m, chunk).1 == event_map_chat::choices_mapped(
        counted,
        choices.drop_last(),
    ).1 + event_map_chat::choice_mapped(
        event_map_chat::choices_mapped(counted, choices.drop_last()).0,
        choices.last(),
    ).1);
}

/// The ends of the calls come before the end of the stream, and none of them has arguments: these
/// came in fragments.
pub proof fn law_ends(chunks: Seq<ChatStreamChunk>)
    ensures
        ({
            let m = event_map_chat::all_mapped(event_map_chat::new_mapper(), chunks).0;
            let ends = event_map_chat::flushed(m).1;
            forall|k: int|
                0 <= k < ends.len() - 1 ==> (#[trigger] ends[k] matches
                    ModelEventView::ToolCallEnd { arguments, .. } && arguments is None)
        }),
{
}

} // verus!
