//! What the events of the Messages API say, and what is told of them.

use crate::anthropic::event_map;
use crate::anthropic::event_map::{BlockKindView, MapperView};
use crate::anthropic::models::{StreamContentBlock, StreamDelta, StreamEvent, StreamUsage};
use crate::flat;
use crate::key_map;
use crate::language_model::event::{FinishReason, ModelEventView, Usage};
use crate::openai::chat_event_laws;
use vstd::prelude::*;

verus! {

/// The mapper after some events, and what is told of them.
pub open spec fn all_mapped(events: Seq<StreamEvent>) -> (MapperView, Seq<ModelEventView>)
    decreases events.len(),
{
    if events.len() == 0 {
        (event_map::new_mapper(), Seq::empty())
    } else {
        let (before, told) = all_mapped(events.drop_last());
        let (after, more) = event_map::mapped(before, events.last());
        (after, told + more)
    }
}

/// The kind of block that stands open at an index, after some events: that of the last block of a
/// known kind that was started there, unless it was stopped.
pub open spec fn block_open(events: Seq<StreamEvent>, index: u32) -> Option<BlockKindView>
    decreases events.len(),
{
    if events.len() == 0 {
        None
    } else {
        let before = block_open(events.drop_last(), index);
        match events.last() {
            StreamEvent::ContentBlockStart { index: at, content_block } => if at == index {
                match content_block {
                    StreamContentBlock::Text { .. } => Some(BlockKindView::Text),
                    StreamContentBlock::ToolUse { id, .. } => Some(
                        BlockKindView::ToolUse { id: id@ },
                    ),
                    StreamContentBlock::Thinking { .. } => Some(BlockKindView::Thinking),
                    StreamContentBlock::Other => before,
                }
            } else {
                before
            },
            StreamEvent::ContentBlockStop { index: at } => if at == index {
                None
            } else {
                before
            },
            _ => before,
        }
    }
}

spec fn agrees(m: MapperView, events: Seq<StreamEvent>) -> bool {
    &&& forall|i: u32| #[trigger] block_open(events, i) == key_map::get(m.blocks, i)
    &&& key_map::in_order::<u32, BlockKindView>(m.blocks)
}

proof fn lemma_agrees(events: Seq<StreamEvent>)
    ensures
        agrees(all_mapped(events).0, events),
    decreases events.len(),
{
    if events.len() > 0 {
        let front = events.drop_last();
        lemma_agrees(front);
        let before = all_mapped(front).0;
        let after = all_mapped(events).0;
        match events.last() {
            StreamEvent::ContentBlockStart { index, content_block } => {
                if !(content_block is Other) {
                    let kind = match content_block {
                        StreamContentBlock::Text { .. } => BlockKindView::Text,
                        StreamContentBlock::ToolUse { id, .. } => BlockKindView::ToolUse { id: id@ },
                        _ => BlockKindView::Thinking,
                    };
                    key_map::law_put_in_order::<u32, BlockKindView>(before.blocks, index, kind);
                    assert forall|i: u32| #[trigger] block_open(events, i) == key_map::get(
                        after.blocks,
                        i,
                    ) by {
                        assert(block_open(front, i) == key_map::get(before.blocks, i));
                        key_map::law_put_get::<u32, BlockKindView>(before.blocks, index, kind, i);
                    }
                } else {
                    assert forall|i: u32| #[trigger] block_open(events, i) == key_map::get(
                        after.blocks,
                        i,
                    ) by {
                        assert(block_open(front, i) == key_map::get(before.blocks, i));
                    }
                }
            },
            StreamEvent::ContentBlockStop { index } => {
                key_map::law_without_in_order::<u32, BlockKindView>(before.blocks, index);
                assert forall|i: u32| #[trigger] block_open(events, i) == key_map::get(
                    after.blocks,
                    i,
                ) by {
                    assert(block_open(front, i) == key_map::get(before.blocks, i));
                    key_map::law_without_get::<u32, BlockKindView>(before.blocks, index, i);
                }
            },
            _ => {
                assert forall|i: u32| #[trigger] block_open(events, i) == key_map::get(
                    after.blocks,
                    i,
                ) by {
                    assert(block_open(front, i) == key_map::get(before.blocks, i));
                }
            },
        }
    }
}

/// The token counts in an event.
pub open spec fn counts_in(ev: StreamEvent) -> Seq<StreamUsage> {
    match ev {
        StreamEvent::MessageStart { message } => match message.usage {
            Some(u) => seq![u],
            None => Seq::empty(),
        },
        StreamEvent::MessageDelta { usage, .. } => match usage {
            Some(u) => seq![u],
            None => Seq::empty(),
        },
        _ => Seq::empty(),
    }
}

/// The provider's words for the end in an event.
pub open spec fn words_in(ev: StreamEvent) -> Seq<Seq<char>> {
    match ev {
        StreamEvent::MessageDelta { delta, .. } => match delta.stop_reason {
            Some(word) => seq![word@],
            None => Seq::empty(),
        },
        _ => Seq::empty(),
    }
}

/// The input tokens that a cache had or got, up to the largest number.
pub open spec fn cached_in(u: StreamUsage) -> u32 {
    let sum = u.cache_read_input_tokens + u.cache_creation_input_tokens;
    if sum <= u32::MAX {
        sum as u32
    } else {
        u32::MAX
    }
}

/// Whether counts are the largest that were reported.
pub open spec fn counts_largest(usage: Usage, counts: Seq<StreamUsage>) -> bool {
    &&& chat_event_laws::is_largest(
        usage.input_tokens,
        counts.map_values(|u: StreamUsage| u.input_tokens),
    )
    &&& chat_event_laws::is_largest(
        usage.output_tokens,
        counts.map_values(|u: StreamUsage| u.output_tokens),
    )
    &&& chat_event_laws::is_largest(
        usage.cached_input_tokens,
        counts.map_values(|u: StreamUsage| cached_in(u)),
    )
}

proof fn lemma_counts(usage: Usage, had: Seq<StreamUsage>, u: StreamUsage)
    requires
        counts_largest(usage, had),
    ensures
        counts_largest(event_map::merged_usage(usage, u), had + seq![u]),
{
    let a = |u: StreamUsage| u.input_tokens;
    let b = |u: StreamUsage| u.output_tokens;
    let c = |u: StreamUsage| cached_in(u);
    let merged = event_map::merged_usage(usage, u);
    chat_event_laws::lemma_largest_push(
        usage.input_tokens,
        had.map_values(a),
        u.input_tokens,
        merged.input_tokens,
    );
    chat_event_laws::lemma_largest_push(
        usage.output_tokens,
        had.map_values(b),
        u.output_tokens,
        merged.output_tokens,
    );
    chat_event_laws::lemma_largest_push(
        usage.cached_input_tokens,
        had.map_values(c),
        cached_in(u),
        merged.cached_input_tokens,
    );
    let all = had + seq![u];
    assert(all.map_values(a) =~= had.map_values(a).push(u.input_tokens));
    assert(all.map_values(b) =~= had.map_values(b).push(u.output_tokens));
    assert(all.map_values(c) =~= had.map_values(c).push(cached_in(u)));
}

proof fn lemma_message(events: Seq<StreamEvent>)
    ensures
        ({
            let m = all_mapped(events).0;
            let words = events.flat_map(|e: StreamEvent| words_in(e));
            &&& counts_largest(m.usage, events.flat_map(|e: StreamEvent| counts_in(e)))
            &&& m.stop_reason == if words.len() == 0 {
                None
            } else {
                Some(words.last())
            }
        }),
    decreases events.len(),
{
    let n = |e: StreamEvent| counts_in(e);
    let w = |e: StreamEvent| words_in(e);
    if events.len() == 0 {
        flat::lemma_flat_empty(events, n);
        flat::lemma_flat_empty(events, w);
    } else {
        let front = events.drop_last();
        let ev = events.last();
        lemma_message(front);
        flat::lemma_flat_last(events, n);
        flat::lemma_flat_last(events, w);
        let before = all_mapped(front).0;
        if counts_in(ev).len() == 0 {
            assert(events.flat_map(n) =~= front.flat_map(n));
        } else {
            lemma_counts(before.usage, front.flat_map(n), counts_in(ev)[0]);
            assert(counts_in(ev) =~= seq![counts_in(ev)[0]]);
        }
        if words_in(ev).len() == 0 {
            assert(events.flat_map(w) =~= front.flat_map(w));
        }
    }
}

/// What a word for the end means.
pub open spec fn word_means(word: Seq<char>, reason: FinishReason) -> bool {
    &&& word == "end_turn"@ ==> reason == FinishReason::Stop
    &&& word == "stop_sequence"@ ==> reason == FinishReason::Stop
    &&& word == "max_tokens"@ ==> reason == FinishReason::Length
    &&& word == "tool_use"@ ==> reason == FinishReason::ToolUse
    &&& word == "refusal"@ ==> reason == FinishReason::ContentFilter
    &&& word != "end_turn"@ && word != "stop_sequence"@ && word != "max_tokens"@ && word
        != "tool_use"@ && word != "refusal"@ ==> reason == FinishReason::Other
}

proof fn lemma_words(word: Seq<char>)
    ensures
        word_means(word, event_map::stop_reason_of(Some(word))),
{
    reveal_strlit("end_turn");
    reveal_strlit("stop_sequence");
    reveal_strlit("max_tokens");
    reveal_strlit("tool_use");
    reveal_strlit("refusal");
    assert("end_turn"@.len() == 8 && "tool_use"@.len() == 8);
    assert("end_turn"@[0] == 'e' && "tool_use"@[0] == 't');
    assert("stop_sequence"@.len() == 13 && "max_tokens"@.len() == 10 && "refusal"@.len() == 7);
}

/// What is told of an event that follows some others: text and reasoning as they came, where they
/// suit the block at their index, the start of a call, fragments of its arguments and its end under
/// one identifier, and the end of the message with the provider's last reason and its largest token
/// counts.
pub proof fn law_event_is_told(events: Seq<StreamEvent>, ev: StreamEvent)
    ensures
        ({
            let told = event_map::mapped(all_mapped(events).0, ev).1;
            match ev {
                StreamEvent::ContentBlockStart { content_block, .. } => match content_block {
                    StreamContentBlock::Text { text } => if text@.len() == 0 {
                        told.len() == 0
                    } else {
                        told == seq![ModelEventView::TextDelta { delta: text@ }]
                    },
                    StreamContentBlock::Thinking { thinking } => if thinking@.len() == 0 {
                        told.len() == 0
                    } else {
                        told == seq![ModelEventView::ReasoningDelta { delta: thinking@ }]
                    },
                    StreamContentBlock::ToolUse { id, name, .. } => told == seq![
                        ModelEventView::ToolCallStart { id: id@, name: name@ },
                    ],
                    StreamContentBlock::Other => told.len() == 0,
                },
                StreamEvent::ContentBlockDelta { index, delta } => match (
                    block_open(events, index),
                    delta,
                ) {
                    (Some(BlockKindView::Text), StreamDelta::TextDelta { text }) => told == seq![
                        ModelEventView::TextDelta { delta: text@ },
                    ],
                    (
                        Some(BlockKindView::ToolUse { id }),
                        StreamDelta::InputJsonDelta { partial_json },
                    ) => told == seq![
                        ModelEventView::ToolCallDelta { id, arguments_delta: partial_json@ },
                    ],
                    (Some(BlockKindView::Thinking), StreamDelta::ThinkingDelta { thinking }) => told
                        == seq![ModelEventView::ReasoningDelta { delta: thinking@ }],
                    (Some(BlockKindView::Thinking), StreamDelta::SignatureDelta { signature }) => {
                        told == seq![ModelEventView::ReasoningSignature { signature: signature@ }]
                    },
                    _ => told.len() == 0,
                },
                StreamEvent::ContentBlockStop { index } => match block_open(events, index) {
                    Some(BlockKindView::ToolUse { id }) => told == seq![
                        ModelEventView::ToolCallEnd { id, arguments: None },
                    ],
                    _ => told.len() == 0,
                },
                StreamEvent::MessageStop => {
                    let words = events.flat_map(|e: StreamEvent| words_in(e));
                    &&& told.len() == 1
                    &&& told[0] matches ModelEventView::Finish { reason, usage }
                    &&& counts_largest(usage, events.flat_map(|e: StreamEvent| counts_in(e)))
                    &&& words.len() == 0 ==> reason == FinishReason::Stop
                    &&& words.len() > 0 ==> word_means(words.last(), reason)
                },
                StreamEvent::Error { error } => told == seq![
                    ModelEventView::Error { message: error.kind@ + ": "@ + error.message@ },
                ],
                _ => told.len() == 0,
            }
        }),
{
    lemma_agrees(events);
    let m = all_mapped(events).0;
    match ev {
        StreamEvent::ContentBlockDelta { index, .. } => {
            assert(block_open(events, index) == key_map::get(m.blocks, index));
        },
        StreamEvent::ContentBlockStop { index } => {
            assert(block_open(events, index) == key_map::get(m.blocks, index));
        },
        StreamEvent::MessageStop => {
            lemma_message(events);
            let words = events.flat_map(|e: StreamEvent| words_in(e));
            if words.len() > 0 {
                lemma_words(words.last());
            }
        },
        _ => {},
    }
}

/// The text that an event adds, where it follows some others.
pub open spec fn text_added(events: Seq<StreamEvent>, ev: StreamEvent) -> Seq<char> {
    match ev {
        StreamEvent::ContentBlockStart {
            content_block: StreamContentBlock::Text { text },
            ..
        } => text@,
        StreamEvent::ContentBlockDelta { index, delta: StreamDelta::TextDelta { text } } => {
            if block_open(events, index) == Some(BlockKindView::Text) {
                text@
            } else {
                Seq::empty()
            }
        },
        _ => Seq::empty(),
    }
}

/// The reasoning that an event adds, where it follows some others.
pub open spec fn reasoning_added(events: Seq<StreamEvent>, ev: StreamEvent) -> Seq<char> {
    match ev {
        StreamEvent::ContentBlockStart {
            content_block: StreamContentBlock::Thinking { thinking },
            ..
        } => thinking@,
        StreamEvent::ContentBlockDelta { index, delta: StreamDelta::ThinkingDelta { thinking } } => {
            if block_open(events, index) == Some(BlockKindView::Thinking) {
                thinking@
            } else {
                Seq::empty()
            }
        },
        _ => Seq::empty(),
    }
}

/// The arguments that an event adds to the call with an identifier, where it follows some others.
pub open spec fn arguments_added(
    events: Seq<StreamEvent>,
    ev: StreamEvent,
    id: Seq<char>,
) -> Seq<char> {
    match ev {
        StreamEvent::ContentBlockDelta {
            index,
            delta: StreamDelta::InputJsonDelta { partial_json },
        } => if block_open(events, index) == Some(BlockKindView::ToolUse { id }) {
            partial_json@
        } else {
            Seq::empty()
        },
        _ => Seq::empty(),
    }
}

/// What some events add up to: the text, the reasoning, and the arguments of one call.
pub open spec fn content_of(events: Seq<StreamEvent>, id: Seq<char>) -> (
    Seq<char>,
    Seq<char>,
    Seq<char>,
)
    decreases events.len(),
{
    if events.len() == 0 {
        (Seq::empty(), Seq::empty(), Seq::empty())
    } else {
        let front = events.drop_last();
        let (text, reasoning, arguments) = content_of(front, id);
        (
            text + text_added(front, events.last()),
            reasoning + reasoning_added(front, events.last()),
            arguments + arguments_added(front, events.last(), id),
        )
    }
}

/// What is told of some events is what is in them: the text, the reasoning and the arguments of each
/// call, in order, character for character.
pub proof fn law_content_is_told(events: Seq<StreamEvent>, id: Seq<char>)
    ensures
        ({
            let told = all_mapped(events).1;
            let (text, reasoning, arguments) = content_of(events, id);
            &&& told.flat_map(|e: ModelEventView| chat_event_laws::text_told(e)) == text
            &&& told.flat_map(|e: ModelEventView| chat_event_laws::reasoning_told(e)) == reasoning
            &&& told.flat_map(|e: ModelEventView| chat_event_laws::arguments_told(e, id))
                == arguments
        }),
    decreases events.len(),
{
    let t = |e: ModelEventView| chat_event_laws::text_told(e);
    let r = |e: ModelEventView| chat_event_laws::reasoning_told(e);
    let g = |e: ModelEventView| chat_event_laws::arguments_told(e, id);
    let all = all_mapped(events).1;
    if events.len() == 0 {
        flat::lemma_flat_empty(all, t);
        flat::lemma_flat_empty(all, r);
        flat::lemma_flat_empty(all, g);
    } else {
        let front = events.drop_last();
        law_content_is_told(front, id);
        law_event_is_told(front, events.last());
        let told = all_mapped(front).1;
        let more = event_map::mapped(all_mapped(front).0, events.last()).1;
        flat::lemma_flat_join(told, more, t);
        flat::lemma_flat_join(told, more, r);
        flat::lemma_flat_join(told, more, g);
        if more.len() == 0 {
            flat::lemma_flat_empty(more, t);
            flat::lemma_flat_empty(more, r);
            flat::lemma_flat_empty(more, g);
        } else {
            assert(more =~= seq![more[0]]);
            flat::lemma_flat_one(more[0], t);
            flat::lemma_flat_one(more[0], r);
            flat::lemma_flat_one(more[0], g);
        }
        let (text, reasoning, arguments) = content_of(events, id);
        assert(all.flat_map(t) =~= text);
        assert(all.flat_map(r) =~= reasoning);
        assert(all.flat_map(g) =~= arguments);
    }
}

/// Whether one of the events ends the message: its last event, or an error.
pub open spec fn has_ended(events: Seq<StreamEvent>) -> bool {
    exists|i: int|
        0 <= i < events.len() && ((#[trigger] events[i]) is MessageStop || events[i] is Error)
}

proof fn lemma_ended(events: Seq<StreamEvent>)
    ensures
        all_mapped(events).0.finished == has_ended(events),
    decreases events.len(),
{
    if events.len() > 0 {
        let front = events.drop_last();
        lemma_ended(front);
        if has_ended(front) {
            let i = choose|i: int|
                0 <= i < front.len() && ((#[trigger] front[i]) is MessageStop || front[i] is Error);
            assert(events[i] == front[i]);
        }
        if has_ended(events) {
            let i = choose|i: int|
                0 <= i < events.len() && ((#[trigger] events[i]) is MessageStop || events[i]
                    is Error);
            if i < front.len() {
                assert(front[i] == events[i]);
            }
        }
        assert(events[events.len() - 1] == events.last());
    }
}

/// Where the bytes end before the message does, the end is told in its place, with the largest token
/// counts that were reported; where the message has ended, nothing more is told.
pub proof fn law_broken_off(events: Seq<StreamEvent>)
    ensures
        ({
            let told = event_map::flushed(all_mapped(events).0).1;
            if has_ended(events) {
                told.len() == 0
            } else {
                &&& told.len() == 1
                &&& told[0] matches ModelEventView::Finish { reason, usage }
                &&& reason == FinishReason::Other
                &&& counts_largest(usage, events.flat_map(|e: StreamEvent| counts_in(e)))
            }
        }),
{
    lemma_ended(events);
    lemma_message(events);
}

} // verus!
