//! What holds of whole streams, provider by provider: how they end.

use crate::agent::event;
use crate::anthropic::event_map;
use crate::anthropic::event_map::{EventMapper, MapperView};
use crate::anthropic::models::StreamEvent;
use crate::event_stream;
use crate::event_stream::{FrameMapper, StreamView, MAX_CONSECUTIVE_PARSE_ERRORS};
use crate::language_model::event::ModelEventView;
use crate::openai::chat::{ChatStreamChoice, ChatStreamChunk, ChatStreamToolCall};
use crate::openai::client::{Mapper, OpenAIMapperView, OpenAIWire};
use crate::openai::event_map_chat;
use crate::openai::event_map_chat::ChatMapperView;
use crate::openai::event_map_responses;
use vstd::prelude::*;

verus! {

/// Whether the last of the events ends a stream, and no other.
pub open spec fn ends_once(events: Seq<ModelEventView>) -> bool {
    events.len() > 0 && event_stream::is_end(events.last()) && !event_stream::has_end(
        events.drop_last(),
    )
}

/// All that a stream gives that is not cancelled and does not fail, its frames being decoded as
/// given.
pub open spec fn given<M: FrameMapper>(
    mapper: M::V,
    decoded: Seq<Result<M::Wire, Seq<char>>>,
) -> Seq<ModelEventView> {
    event_stream::visible(
        event_stream::at_end::<M>(
            event_stream::absorbed::<M>(event_stream::new_stream(mapper), decoded),
        ).buffered,
    )
}

/// Where one of the events that wait ends the stream, what is handed out ends with it.
proof fn lemma_visible_ends_once(events: Seq<ModelEventView>)
    requires
        event_stream::has_end(events),
    ensures
        ends_once(event_stream::visible(events)),
    decreases events.len(),
{
    let shown = event_stream::visible(events);
    if event_stream::is_end(events[0]) {
        assert(shown == seq![events[0]]);
    } else {
        let rest = events.drop_first();
        let k = choose|k: int|
            0 <= k < events.len() && event_stream::is_end(#[trigger] events[k]);
        assert(rest[k - 1] == events[k]);
        lemma_visible_ends_once(rest);
        let later = event_stream::visible(rest);
        assert(shown == seq![events[0]] + later);
        assert(shown.last() == later.last());
        assert forall|i: int| 0 <= i < shown.drop_last().len() implies !event_stream::is_end(
            #[trigger] shown.drop_last()[i],
        ) by {
            if i > 0 {
                assert(shown.drop_last()[i] == later.drop_last()[i - 1]);
            }
        }
    }
}

proof fn lemma_end_stays(a: Seq<ModelEventView>, b: Seq<ModelEventView>)
    ensures
        event_stream::has_end(a) || event_stream::has_end(b) ==> event_stream::has_end(a + b),
{
    if event_stream::has_end(a) {
        let i = choose|i: int| 0 <= i < a.len() && event_stream::is_end(#[trigger] a[i]);
        assert((a + b)[i] == a[i]);
    } else if event_stream::has_end(b) {
        let i = choose|i: int| 0 <= i < b.len() && event_stream::is_end(#[trigger] b[i]);
        assert((a + b)[a.len() + i] == b[i]);
    }
}

/// Where the mapper holds the end for told, one of the events that wait tells it.
pub open spec fn told<M: FrameMapper>(
    s: StreamView<M::V>,
    finished: spec_fn(M::V) -> bool,
) -> bool {
    finished(s.mapper) ==> event_stream::has_end(s.buffered)
}

proof fn lemma_told<M: FrameMapper>(
    s: StreamView<M::V>,
    decoded: Seq<Result<M::Wire, Seq<char>>>,
    finished: spec_fn(M::V) -> bool,
)
    requires
        told::<M>(s, finished),
        forall|m: M::V, wire: M::Wire|
            !finished(m) && finished((#[trigger] M::mapped(m, wire)).0) ==> event_stream::has_end(
                M::mapped(m, wire).1,
            ),
    ensures
        told::<M>(event_stream::absorbed::<M>(s, decoded), finished),
    decreases decoded.len(),
{
    if decoded.len() > 0 {
        match decoded[0] {
            Ok(wire) => {
                let (mapper, events) = M::mapped(s.mapper, wire);
                lemma_end_stays(s.buffered, events);
                lemma_told::<M>(
                    StreamView { mapper, errors: 0, buffered: s.buffered + events, ..s },
                    decoded.drop_first(),
                    finished,
                );
            },
            Err(message) => {
                let errors = event::capped_sum(s.errors, 1);
                if errors >= MAX_CONSECUTIVE_PARSE_ERRORS {
                    let garbage = event_stream::garbage_event(errors, message);
                    assert(s.buffered.push(garbage)[s.buffered.len() as int] == garbage);
                } else {
                    lemma_told::<M>(StreamView { errors, ..s }, decoded.drop_first(), finished);
                }
            },
        }
    }
}

proof fn lemma_ends_once<M: FrameMapper>(
    mapper: M::V,
    decoded: Seq<Result<M::Wire, Seq<char>>>,
    finished: spec_fn(M::V) -> bool,
)
    requires
        !finished(mapper),
        forall|m: M::V, wire: M::Wire|
            !finished(m) && finished((#[trigger] M::mapped(m, wire)).0) ==> event_stream::has_end(
                M::mapped(m, wire).1,
            ),
        forall|m: M::V|
            !finished(m) ==> event_stream::has_end((#[trigger] M::flushed(m)).1),
    ensures
        ends_once(given::<M>(mapper, decoded)),
{
    let start = event_stream::new_stream(mapper);
    let s = event_stream::absorbed::<M>(start, decoded);
    lemma_told::<M>(start, decoded, finished);
    let events = M::flushed(s.mapper).1;
    lemma_end_stays(s.buffered, events);
    lemma_visible_ends_once(s.buffered + events);
}

proof fn lemma_calls_keep_finished(m: ChatMapperView, calls: Seq<ChatStreamToolCall>)
    ensures
        event_map_chat::calls_mapped(m, calls).0.finished == m.finished,
    decreases calls.len(),
{
    if calls.len() > 0 {
        lemma_calls_keep_finished(m, calls.drop_last());
    }
}

proof fn lemma_choices_keep_finished(m: ChatMapperView, choices: Seq<ChatStreamChoice>)
    ensures
        event_map_chat::choices_mapped(m, choices).0.finished == m.finished,
    decreases choices.len(),
{
    if choices.len() > 0 {
        lemma_choices_keep_finished(m, choices.drop_last());
        let before = event_map_chat::choices_mapped(m, choices.drop_last()).0;
        lemma_calls_keep_finished(before, choices.last().delta.tool_calls@);
    }
}

proof fn lemma_chunk_keeps_finished(m: ChatMapperView, chunk: ChatStreamChunk)
    ensures
        event_map_chat::mapped(m, chunk).0.finished == m.finished,
{
    let counted = match chunk.usage {
        Some(u) => ChatMapperView {
            usage: event_map_chat::larger_usage(
                crate::openai::models::spec_usage(crate::openai::chat::wire_usage(u)),
                m.usage,
            ),
            ..m
        },
        None => m,
    };
    lemma_choices_keep_finished(counted, chunk.choices@);
}

/// Whether the mapper holds the end of the stream for told.
pub open spec fn openai_finished(m: OpenAIMapperView) -> bool {
    match m {
        OpenAIMapperView::Chat(m) => m.finished,
        OpenAIMapperView::Responses(m) => m.finished,
    }
}

proof fn lemma_openai_ends_once(
    mapper: OpenAIMapperView,
    decoded: Seq<Result<OpenAIWire, Seq<char>>>,
)
    requires
        !openai_finished(mapper),
    ensures
        ends_once(given::<Mapper>(mapper, decoded)),
{
    let finished = |m: OpenAIMapperView| openai_finished(m);
    assert forall|m: OpenAIMapperView, wire: OpenAIWire|
        !finished(m) && finished((#[trigger] Mapper::mapped(m, wire)).0) implies
        event_stream::has_end(Mapper::mapped(m, wire).1) by {
        match (m, wire) {
            (OpenAIMapperView::Chat(c), OpenAIWire::Chat(chunk)) => {
                lemma_chunk_keeps_finished(c, chunk);
            },
            (OpenAIMapperView::Responses(r), OpenAIWire::Responses(ev)) => {
                event_map_responses::law_one_finish(r, ev);
                assert(event_stream::is_end(Mapper::mapped(m, wire).1[0]));
            },
            _ => {},
        }
    }
    assert forall|m: OpenAIMapperView| !finished(m) implies event_stream::has_end(
        (#[trigger] Mapper::flushed(m)).1,
    ) by {
        let events = Mapper::flushed(m).1;
        match m {
            OpenAIMapperView::Chat(c) => {
                event_map_chat::law_one_finish(c);
            },
            _ => {},
        }
        assert(event_stream::is_end(events[events.len() - 1]));
    }
    lemma_ends_once::<Mapper>(mapper, decoded, finished);
}

/// Every stream of Chat Completions ends with one event that tells the end, whatever the provider
/// sends.
pub proof fn law_chat_ends_once(decoded: Seq<Result<OpenAIWire, Seq<char>>>)
    ensures
        ends_once(
            given::<Mapper>(OpenAIMapperView::Chat(event_map_chat::new_mapper()), decoded),
        ),
{
    lemma_openai_ends_once(OpenAIMapperView::Chat(event_map_chat::new_mapper()), decoded);
}

/// Every stream of Responses ends with one event that tells the end, whatever the provider sends.
pub proof fn law_responses_ends_once(decoded: Seq<Result<OpenAIWire, Seq<char>>>)
    ensures
        ends_once(
            given::<Mapper>(
                OpenAIMapperView::Responses(event_map_responses::new_mapper()),
                decoded,
            ),
        ),
{
    lemma_openai_ends_once(
        OpenAIMapperView::Responses(event_map_responses::new_mapper()),
        decoded,
    );
}

/// Every stream of messages ends with one event that tells the end, whatever the provider sends.
pub proof fn law_messages_end_once(decoded: Seq<Result<StreamEvent, Seq<char>>>)
    ensures
        ends_once(given::<EventMapper>(event_map::new_mapper(), decoded)),
{
    let finished = |m: MapperView| m.finished;
    assert forall|m: MapperView, wire: StreamEvent|
        !finished(m) && finished((#[trigger] EventMapper::mapped(m, wire)).0) implies
        event_stream::has_end(EventMapper::mapped(m, wire).1) by {
        assert(event_stream::is_end(EventMapper::mapped(m, wire).1[0]));
    }
    assert forall|m: MapperView| !finished(m) implies event_stream::has_end(
        (#[trigger] EventMapper::flushed(m)).1,
    ) by {
        assert(event_stream::is_end(EventMapper::flushed(m).1[0]));
    }
    lemma_ends_once::<EventMapper>(event_map::new_mapper(), decoded, finished);
}

} // verus!
