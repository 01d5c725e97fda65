//! What a stream makes of the frames of a provider, whatever the provider is.

use crate::agent::event;
use crate::event_stream;
use crate::event_stream::{FrameMapper, PullView, StreamView};
use crate::flat;
use crate::language_model::event::ModelEventView;
use crate::sse::SseFrameView;
use crate::text;
use crate::text_laws;
use vstd::prelude::*;

verus! {

/// Whether a text is the mark of the end, which white space may surround.
pub open spec fn end_mark(s: Seq<char>) -> bool {
    exists|before: Seq<char>, after: Seq<char>|
        text_laws::blank(before) && text_laws::blank(after) && s == #[trigger] (before
            + "[DONE]"@ + after)
}

/// Whether a frame holds something: it has data that is not the mark of the end.
pub open spec fn holds_something(f: SseFrameView) -> bool {
    f.data.len() > 0 && !end_mark(f.data)
}

proof fn lemma_end_mark(s: Seq<char>)
    ensures
        end_mark(s) == (text::trimmed(s) == "[DONE]"@),
{
    reveal_strlit("[DONE]");
    assert(text_laws::tight("[DONE]"@));
    if end_mark(s) {
        let (a, b) = choose|a: Seq<char>, b: Seq<char>|
            text_laws::blank(a) && text_laws::blank(b) && s == #[trigger] (a + "[DONE]"@ + b);
        text_laws::law_trimming(a, "[DONE]"@, b);
    }
    if text::trimmed(s) == "[DONE]"@ {
        text_laws::law_trimmed_is_a_part(s);
        let (a, b) = choose|a: Seq<char>, b: Seq<char>|
            text_laws::blank(a) && text_laws::blank(b) && #[trigger] (a + text::trimmed(s) + b)
                == s;
        assert(s == a + "[DONE]"@ + b);
    }
}

/// Every frame that holds something is decoded, in order, and no other.
pub proof fn law_frames_are_picked(frames: Seq<SseFrameView>)
    ensures
        event_stream::worth(frames) == frames.filter(|f: SseFrameView| holds_something(f)),
    decreases frames.len(),
{
    reveal(Seq::filter);
    if frames.len() > 0 {
        law_frames_are_picked(frames.drop_last());
        lemma_end_mark(frames.last().data);
    } else {
        assert(frames =~= Seq::<SseFrameView>::empty());
    }
}

/// The decoded frame, where it could be decoded.
pub open spec fn good<W>(d: Result<W, Seq<char>>) -> Seq<W> {
    match d {
        Ok(wire) => seq![wire],
        Err(_) => Seq::empty(),
    }
}

/// The mapper after some frames, and all that they mean, one after the other.
pub open spec fn all_meant<M: FrameMapper>(m: M::V, wires: Seq<M::Wire>) -> (
    M::V,
    Seq<ModelEventView>,
)
    decreases wires.len(),
{
    if wires.len() == 0 {
        (m, Seq::empty())
    } else {
        let (next, events) = M::mapped(m, wires[0]);
        let (last, more) = all_meant::<M>(next, wires.drop_first());
        (last, events + more)
    }
}

/// Whether one of eight frames that follow each other could be decoded.
pub open spec fn one_is_good<W>(decoded: Seq<Result<W, Seq<char>>>, i: int) -> bool {
    exists|j: int| i <= j < i + 8 && (#[trigger] decoded[j]) is Ok
}

/// Whether there are never eight malformed frames in a row.
pub open spec fn bearable<W>(decoded: Seq<Result<W, Seq<char>>>) -> bool {
    forall|i: int| 0 <= i && i + 8 <= decoded.len() ==> #[trigger] one_is_good(decoded, i)
}

spec fn with_errors<W>(errors: nat, decoded: Seq<Result<W, Seq<char>>>) -> Seq<
    Result<W, Seq<char>>,
> {
    Seq::new(errors, |i: int| Err(Seq::empty())) + decoded
}

proof fn lemma_all_meant<M: FrameMapper>(
    s: StreamView<M::V>,
    decoded: Seq<Result<M::Wire, Seq<char>>>,
)
    requires
        s.errors < 8,
        bearable(with_errors(s.errors as nat, decoded)),
    ensures
        ({
            let wires = decoded.flat_map(|d: Result<M::Wire, Seq<char>>| good(d));
            let after = event_stream::absorbed::<M>(s, decoded);
            &&& after.buffered == s.buffered + all_meant::<M>(s.mapper, wires).1
            &&& after.mapper == all_meant::<M>(s.mapper, wires).0
            &&& after.rest == s.rest
            &&& after.done == s.done
        }),
    decreases decoded.len(),
{
    let g = |d: Result<M::Wire, Seq<char>>| good(d);
    let all = with_errors(s.errors as nat, decoded);
    if decoded.len() == 0 {
        flat::lemma_flat_empty(decoded, g);
        assert(s.buffered + Seq::<ModelEventView>::empty() =~= s.buffered);
    } else {
        let first = decoded[0];
        let rest = decoded.drop_first();
        assert(decoded =~= seq![first] + rest);
        flat::lemma_flat_join(seq![first], rest, g);
        flat::lemma_flat_one(first, g);
        let wires = rest.flat_map(g);
        match first {
            Ok(wire) => {
                let (mapper, events) = M::mapped(s.mapper, wire);
                let next = StreamView { mapper, errors: 0, buffered: s.buffered + events, ..s };
                let later = with_errors(0, rest);
                assert(later =~= rest);
                assert forall|i: int| 0 <= i && i + 8 <= later.len() implies
                    #[trigger] one_is_good(later, i) by {
                    assert(one_is_good(all, i + s.errors + 1));
                    let j = choose|j: int|
                        i + s.errors + 1 <= j < i + s.errors + 9 && (#[trigger] all[j]) is Ok;
                    assert(later[j - s.errors - 1] == all[j]);
                }
                lemma_all_meant::<M>(next, rest);
                assert((seq![wire] + wires).drop_first() =~= wires);
                let more = all_meant::<M>(mapper, wires).1;
                assert(s.buffered + events + more =~= s.buffered + (events + more));
            },
            Err(message) => {
                let errors = event::capped_sum(s.errors, 1);
                let later = with_errors(errors as nat, rest);
                assert(later.len() == all.len());
                assert forall|k: int| 0 <= k < all.len() implies ((#[trigger] all[k]) is Ok)
                    == (later[k] is Ok) by {
                    if k >= errors {
                        assert(later[k] == rest[k - errors]);
                        assert(all[k] == decoded[k - s.errors]);
                    } else if k == s.errors {
                        assert(all[k] == decoded[0]);
                    }
                }
                if errors >= 8 {
                    assert(one_is_good(all, 0));
                    let j = choose|j: int| 0 <= j < 8 && (#[trigger] all[j]) is Ok;
                    assert(later[j] is Err);
                }
                assert forall|i: int| 0 <= i && i + 8 <= later.len() implies
                    #[trigger] one_is_good(later, i) by {
                    assert(one_is_good(all, i));
                    let j = choose|j: int| i <= j < i + 8 && (#[trigger] all[j]) is Ok;
                    assert(later[j] is Ok);
                }
                lemma_all_meant::<M>(StreamView { errors, ..s }, rest);
                assert(Seq::<M::Wire>::empty() + wires =~= wires);
            },
        }
    }
}

/// A stream gives all that its frames mean, in order and behind what waits already. A malformed frame
/// in between makes no difference, as long as there are never eight of them in a row.
pub proof fn law_frames_give_their_events<M: FrameMapper>(
    s: StreamView<M::V>,
    decoded: Seq<Result<M::Wire, Seq<char>>>,
)
    requires
        s.errors == 0,
        bearable(decoded),
    ensures
        ({
            let wires = decoded.flat_map(|d: Result<M::Wire, Seq<char>>| good(d));
            let after = event_stream::absorbed::<M>(s, decoded);
            &&& after.buffered == s.buffered + all_meant::<M>(s.mapper, wires).1
            &&& after.mapper == all_meant::<M>(s.mapper, wires).0
            &&& after.rest == s.rest
            &&& after.done == s.done
        }),
{
    assert(with_errors(0, decoded) =~= decoded);
    lemma_all_meant::<M>(s, decoded);
}

proof fn lemma_garbage<M: FrameMapper>(
    s: StreamView<M::V>,
    decoded: Seq<Result<M::Wire, Seq<char>>>,
)
    requires
        s.errors < 8,
        s.errors + decoded.len() >= 8,
        forall|i: int| 0 <= i < 8 - s.errors ==> (#[trigger] decoded[i]) is Err,
    ensures
        event_stream::absorbed::<M>(s, decoded).buffered == s.buffered.push(
            event_stream::garbage_event(8, decoded[7 - s.errors]->Err_0),
        ),
    decreases decoded.len(),
{
    assert(decoded[0] is Err);
    let errors = event::capped_sum(s.errors, 1);
    if errors < 8 {
        let rest = decoded.drop_first();
        assert forall|i: int| 0 <= i < 8 - errors implies (#[trigger] rest[i]) is Err by {
            assert(rest[i] == decoded[i + 1]);
        }
        lemma_garbage::<M>(StreamView { errors, ..s }, rest);
        assert(rest[7 - errors] == decoded[7 - s.errors]);
    }
}

/// Eight malformed frames in a row end the stream with one error, which tells what was wrong with the
/// last of them. What follows them is not looked at.
pub proof fn law_eight_malformed_frames<M: FrameMapper>(
    s: StreamView<M::V>,
    decoded: Seq<Result<M::Wire, Seq<char>>>,
)
    requires
        s.errors == 0,
        decoded.len() >= 8,
        forall|i: int| 0 <= i < 8 ==> (#[trigger] decoded[i]) is Err,
    ensures
        event_stream::absorbed::<M>(s, decoded).buffered == s.buffered.push(
            ModelEventView::Error {
                message: "8 consecutive malformed SSE frames; last error: "@ + decoded[7]->Err_0,
            },
        ),
{
    lemma_garbage::<M>(s, decoded);
    reveal_strlit("8 consecutive malformed SSE frames; last error: ");
    reveal_strlit(" consecutive malformed SSE frames; last error: ");
    assert(text::decimal_text(8) =~= seq!['8']);
    assert("8 consecutive malformed SSE frames; last error: "@ =~= text::decimal_text(8)
        + " consecutive malformed SSE frames; last error: "@);
}

/// What is handed out of the events that wait is all of them, in order, up to the first that ends the
/// stream and with it.
pub proof fn law_visible(events: Seq<ModelEventView>, n: int)
    requires
        0 <= n <= events.len(),
        forall|i: int| 0 <= i < n ==> !((#[trigger] events[i]) is Finish || events[i] is Error),
        n < events.len() ==> events[n] is Finish || events[n] is Error,
    ensures
        event_stream::visible(events) == if n < events.len() {
            events.take(n + 1)
        } else {
            events
        },
    decreases events.len(),
{
    if events.len() > 0 {
        if n > 0 {
            assert(!(events[0] is Finish || events[0] is Error));
            let rest = events.drop_first();
            assert forall|i: int| 0 <= i < n - 1 implies !((#[trigger] rest[i]) is Finish || rest[i]
                is Error) by {
                assert(rest[i] == events[i + 1]);
            }
            law_visible(rest, n - 1);
            if n < events.len() {
                assert(seq![events[0]] + rest.take(n) =~= events.take(n + 1));
            } else {
                assert(seq![events[0]] + rest =~= events);
            }
        } else {
            assert(seq![events[0]] =~= events.take(1));
        }
    }
}

/// Whether the first event that waits was taken, and nothing else happened. The stream is over once
/// it ends the stream.
pub open spec fn taken<S>(s: StreamView<S>, after: StreamView<S>) -> bool {
    &&& after.buffered == s.buffered.skip(1)
    &&& after.done == (s.done || s.buffered[0] is Finish || s.buffered[0] is Error)
    &&& after.rest == s.rest
    &&& after.mapper == s.mapper
    &&& after.errors == s.errors
}

/// What waits is handed out before more is read, first come first; only a cancellation comes before
/// it. Nothing comes out of a stream that is over, and a cancellation ends it.
pub proof fn law_pulls<M: FrameMapper>(s: StreamView<M::V>, cancelled: bool)
    ensures
        ({
            let (after, pull) = event_stream::pulled::<M>(s);
            if s.done {
                pull is End && after == s
            } else if s.buffered.len() > 0 && !M::cancel_first() {
                pull == PullView::Event(s.buffered[0]) && taken(s, after)
            } else {
                pull is CheckCancel && after == s
            }
        }),
        ({
            let (after, pull) = event_stream::after_cancel_check(s, cancelled);
            if cancelled {
                pull is Cancelled && after.done
            } else if s.buffered.len() > 0 {
                pull == PullView::Event(s.buffered[0]) && taken(s, after)
            } else {
                pull is ReadBytes && after == s
            }
        }),
{
    assert(s.buffered.len() > 0 ==> s.buffered.drop_first() =~= s.buffered.skip(1));
}

/// At the end of the bytes what the end means follows what waits; where there is nothing of either,
/// the stream is over.
pub proof fn law_end_of_bytes<M: FrameMapper>(s: StreamView<M::V>)
    ensures
        ({
            let after = event_stream::at_end::<M>(s);
            let end = M::flushed(s.mapper);
            &&& after.buffered == s.buffered + end.1
            &&& after.mapper == end.0
            &&& after.done == (s.done || (s.buffered.len() == 0 && end.1.len() == 0))
        }),
        event_stream::stopped(s).done,
{
}

} // verus!
