//! From the bytes of a provider's response to model events.
//!
//! The stream is driven from outside: [`EventStream::next`] says what to do, and whoever polls the
//! network or the cancellation hands the outcome back. Frames are decoded outside as well; the
//! stream picks the frames that are worth decoding and takes the results.

use crate::agent::event;
use crate::language_model::event::{LanguageModelEvent, ModelEventView};
use crate::sse;
use crate::sse::{SseFrame, SseFrameView, SseParser};
use crate::text;
use crate::text::{concat3, decimal, same_text, trim};
use vstd::prelude::*;
use vstd::string::*;

verus! {

/// After this many malformed frames in a row the stream ends with an error: a connection that gives
/// nothing but garbage is not worth waiting for.
pub const MAX_CONSECUTIVE_PARSE_ERRORS: u32 = 8;

/// What maps the decoded frames of a provider to model events.
pub trait FrameMapper: View + Sized {
    /// A decoded frame.
    type Wire;

    /// The mapper after a frame, and the model events that it means.
    spec fn mapped(m: Self::V, wire: Self::Wire) -> (Self::V, Seq<ModelEventView>);

    /// The mapper at the end of the bytes, and the model events that the end means.
    spec fn flushed(m: Self::V) -> (Self::V, Seq<ModelEventView>);

    /// Whether cancellation comes before the events that are already there.
    spec fn cancel_first() -> bool;

    /// Takes in a frame, and gives the model events that it means.
    fn map_wire(&mut self, wire: Self::Wire) -> (r: Vec<LanguageModelEvent>)
        ensures
            (final(self)@, r.deep_view()) == Self::mapped(old(self)@, wire),
    ;

    /// Takes in the end of the bytes, and gives the model events that it means.
    fn flush_end(&mut self) -> (r: Vec<LanguageModelEvent>)
        ensures
            (final(self)@, r.deep_view()) == Self::flushed(old(self)@),
    ;

    /// Whether cancellation comes before the events that are already there.
    fn checks_cancel_first() -> (r: bool)
        ensures
            r == Self::cancel_first(),
    ;
}

/// The stream of one response.
pub struct EventStream<M: FrameMapper> {
    parser: SseParser,
    mapper: M,
    buffered: Vec<LanguageModelEvent>,
    done: bool,
    consecutive_parse_errors: u32,
}

/// Model of a stream: the bytes of the frame that is not complete, the mapper, the events that wait
/// to be taken, whether it is over, and the number of malformed frames in a row.
#[verifier::ext_equal]
pub struct StreamView<S> {
    pub rest: Seq<u8>,
    pub mapper: S,
    pub buffered: Seq<ModelEventView>,
    pub done: bool,
    pub errors: u32,
}

impl<M: FrameMapper> View for EventStream<M> {
    type V = StreamView<M::V>;

    closed spec fn view(&self) -> StreamView<M::V> {
        StreamView {
            rest: self.parser@,
            mapper: self.mapper@,
            buffered: self.buffered.deep_view(),
            done: self.done,
            errors: self.consecutive_parse_errors,
        }
    }
}

/// What to do next.
#[derive(Debug, PartialEq, Eq)]
pub enum Pull {
    /// Nothing: the stream is over.
    End,
    /// Hand out this event.
    Event(LanguageModelEvent),
    /// Hand out that the request was cancelled.
    Cancelled,
    /// See whether the request was cancelled, for [`EventStream::cancel_checked`].
    CheckCancel,
    /// Read more bytes, for [`EventStream::chunk`], [`EventStream::ended`] or
    /// [`EventStream::failed`].
    ReadBytes,
}

/// Model of what to do next.
#[verifier::ext_equal]
pub enum PullView {
    End,
    Event(ModelEventView),
    Cancelled,
    CheckCancel,
    ReadBytes,
}

impl View for Pull {
    type V = PullView;

    open spec fn view(&self) -> PullView {
        match *self {
            Pull::End => PullView::End,
            Pull::Event(e) => PullView::Event(e@),
            Pull::Cancelled => PullView::Cancelled,
            Pull::CheckCancel => PullView::CheckCancel,
            Pull::ReadBytes => PullView::ReadBytes,
        }
    }
}

/// A stream before its first byte.
pub open spec fn new_stream<S>(mapper: S) -> StreamView<S> {
    StreamView {
        rest: Seq::empty(),
        mapper,
        buffered: Seq::empty(),
        done: false,
        errors: 0,
    }
}

/// The stream is over.
pub open spec fn stopped<S>(s: StreamView<S>) -> StreamView<S> {
    StreamView { done: true, ..s }
}

/// Whether an event ends a stream.
pub open spec fn is_end(e: ModelEventView) -> bool {
    e is Finish || e is Error
}

/// The first event that waits is taken. No event follows one that ends the stream.
pub open spec fn popped<S>(s: StreamView<S>) -> (StreamView<S>, PullView) {
    (
        StreamView {
            buffered: s.buffered.drop_first(),
            done: s.done || is_end(s.buffered[0]),
            ..s
        },
        PullView::Event(s.buffered[0]),
    )
}

/// What to do next.
pub open spec fn pulled<M: FrameMapper>(s: StreamView<M::V>) -> (StreamView<M::V>, PullView) {
    if s.done {
        (s, PullView::End)
    } else if !M::cancel_first() && s.buffered.len() > 0 {
        popped(s)
    } else {
        (s, PullView::CheckCancel)
    }
}

/// What to do once it is known whether the request was cancelled.
pub open spec fn after_cancel_check<S>(s: StreamView<S>, cancelled: bool) -> (StreamView<S>, PullView) {
    if cancelled {
        (stopped(s), PullView::Cancelled)
    } else if s.buffered.len() > 0 {
        popped(s)
    } else {
        (s, PullView::ReadBytes)
    }
}

/// Whether a frame is worth decoding: it has data, and not just the mark of the end.
pub open spec fn worth_decoding(f: SseFrameView) -> bool {
    text::trimmed(f.data) != "[DONE]"@ && f.data.len() > 0
}

/// The frames that are worth decoding.
pub open spec fn worth(frames: Seq<SseFrameView>) -> Seq<SseFrameView>
    decreases frames.len(),
{
    if frames.len() == 0 {
        frames
    } else if worth_decoding(frames.last()) {
        worth(frames.drop_last()).push(frames.last())
    } else {
        worth(frames.drop_last())
    }
}

/// The error that ends the stream after too many malformed frames.
pub open spec fn garbage_event(errors: u32, message: Seq<char>) -> ModelEventView {
    ModelEventView::Error {
        message: text::decimal_text(errors as nat)
            + " consecutive malformed SSE frames; last error: "@ + message,
    }
}

/// The stream after some decoded frames: good ones give events, malformed ones are dropped, and too
/// many of these in a row give an error, behind which nothing is looked at.
pub open spec fn absorbed<M: FrameMapper>(
    s: StreamView<M::V>,
    decoded: Seq<Result<M::Wire, Seq<char>>>,
) -> StreamView<M::V>
    decreases decoded.len(),
{
    if decoded.len() == 0 {
        s
    } else {
        match decoded[0] {
            Ok(wire) => {
                let (mapper, events) = M::mapped(s.mapper, wire);
                absorbed::<M>(
                    StreamView { mapper, errors: 0, buffered: s.buffered + events, ..s },
                    decoded.drop_first(),
                )
            },
            Err(message) => {
                let errors = event::capped_sum(s.errors, 1);
                if errors >= MAX_CONSECUTIVE_PARSE_ERRORS {
                    StreamView {
                        errors,
                        buffered: s.buffered.push(garbage_event(errors, message)),
                        ..s
                    }
                } else {
                    absorbed::<M>(StreamView { errors, ..s }, decoded.drop_first())
                }
            },
        }
    }
}

/// The stream at the end of the bytes: what the end means waits to be taken, and where nothing
/// waits the stream is over.
pub open spec fn at_end<M: FrameMapper>(s: StreamView<M::V>) -> StreamView<M::V> {
    let (mapper, events) = M::flushed(s.mapper);
    let buffered = s.buffered + events;
    StreamView { mapper, buffered, done: s.done || buffered.len() == 0, ..s }
}

/// A decoded frame, with the error by its text.
pub open spec fn decoded_view<W>(d: Result<W, String>) -> Result<W, Seq<char>> {
    match d {
        Ok(wire) => Ok(wire),
        Err(e) => Err(e@),
    }
}

impl<M: FrameMapper> EventStream<M> {
    /// A stream before its first byte.
    pub fn new(mapper: M) -> (r: Self)
        ensures
            r@ == new_stream(mapper@),
    {
        let r = EventStream {
            parser: SseParser::new(),
            mapper,
            buffered: Vec::new(),
            done: false,
            consecutive_parse_errors: 0,
        };
        assert(r.buffered.deep_view() =~= Seq::<ModelEventView>::empty());
        r
    }

    /// The mapper.
    pub fn mapper(&self) -> (r: &M)
        ensures
            r@ == self@.mapper,
    {
        &self.mapper
    }

    fn pop(&mut self) -> (r: Pull)
        requires
            old(self)@.buffered.len() > 0,
        ensures
            (final(self)@, r@) == popped(old(self)@),
    {
        let ghost waiting = self.buffered.deep_view();
        let event = self.buffered.remove(0);
        assert(waiting[0] == event@);
        assert(self.buffered.deep_view() =~= waiting.drop_first());
        match &event {
            LanguageModelEvent::Finish { .. } | LanguageModelEvent::Error { .. } => {
                self.done = true;
            },
            _ => {},
        }
        Pull::Event(event)
    }

    /// Says what to do next.
    pub fn next(&mut self) -> (r: Pull)
        ensures
            (final(self)@, r@) == pulled::<M>(old(self)@),
    {
        if self.done {
            Pull::End
        } else if !M::checks_cancel_first() && self.buffered.len() > 0 {
            self.pop()
        } else {
            Pull::CheckCancel
        }
    }

    /// Takes whether the request was cancelled, and says what to do next.
    pub fn cancel_checked(&mut self, cancelled: bool) -> (r: Pull)
        ensures
            (final(self)@, r@) == after_cancel_check(old(self)@, cancelled),
    {
        if cancelled {
            self.done = true;
            Pull::Cancelled
        } else if self.buffered.len() > 0 {
            self.pop()
        } else {
            Pull::ReadBytes
        }
    }

    /// Takes in bytes, and gives the frames to decode, for [`EventStream::decoded`].
    pub fn chunk(&mut self, bytes: &[u8]) -> (r: Vec<SseFrame>)
        ensures
            final(self)@ == (StreamView {
                rest: sse::rest_of(old(self)@.rest + bytes@),
                ..old(self)@
            }),
            r.deep_view() == worth(sse::frames_of(old(self)@.rest + bytes@)),
    {
        self.parser.push(bytes);
        let frames = self.parser.drain();
        let ghost all = frames.deep_view();
        let mut out: Vec<SseFrame> = Vec::new();
        let mut i: usize = 0;
        assert(all.take(0) =~= Seq::empty());
        assert(out.deep_view() =~= worth(all.take(0)));
        while i < frames.len()
            invariant
                i <= frames@.len(),
                all == frames.deep_view(),
                out.deep_view() == worth(all.take(i as int)),
            decreases frames@.len() - i,
        {
            assert(all[i as int] == frames@[i as int]@);
            assert(all.take(i + 1).drop_last() =~= all.take(i as int));
            let ghost so_far = out.deep_view();
            let data = frames[i].data.as_str();
            if !same_text(trim(data).as_str(), "[DONE]") && !data.is_empty() {
                out.push(frames[i].clone());
                assert(out.deep_view() =~= so_far.push(all[i as int]));
            }
            i = i + 1;
        }
        assert(all.take(i as int) =~= all);
        out
    }

    /// Takes the decoded frames.
    pub fn decoded(&mut self, decoded: Vec<Result<M::Wire, String>>)
        ensures
            final(self)@ == absorbed::<M>(
                old(self)@,
                decoded@.map_values(|d: Result<M::Wire, String>| decoded_view(d)),
            ),
    {
        let ghost all = decoded@.map_values(|d: Result<M::Wire, String>| decoded_view(d));
        let ghost start = self@;
        let mut rest = decoded;
        let ghost mut k: int = 0;
        assert(all.skip(0) =~= all);
        while rest.len() > 0
            invariant
                0 <= k <= all.len(),
                all == decoded@.map_values(|d: Result<M::Wire, String>| decoded_view(d)),
                start == old(self)@,
                rest@.map_values(|d: Result<M::Wire, String>| decoded_view(d)) == all.skip(k),
                absorbed::<M>(self@, all.skip(k)) == absorbed::<M>(start, all),
            decreases rest@.len(),
        {
            let ghost left = rest@.map_values(|d: Result<M::Wire, String>| decoded_view(d));
            let ghost before = self@;
            let first = rest.remove(0);
            assert(left[0] == decoded_view(first));
            assert(all.skip(k)[0] == left[0]);
            assert(rest@.map_values(|d: Result<M::Wire, String>| decoded_view(d))
                =~= left.drop_first());
            assert(left.drop_first() =~= all.skip(k + 1));
            assert(all.skip(k).drop_first() =~= all.skip(k + 1));
            match first {
                Ok(wire) => {
                    let ghost w = wire;
                    self.consecutive_parse_errors = 0;
                    let mut events = self.mapper.map_wire(wire);
                    let ghost told = events.deep_view();
                    self.buffered.append(&mut events);
                    assert(self.buffered.deep_view() =~= before.buffered + told);
                },
                Err(message) => {
                    self.consecutive_parse_errors = self.consecutive_parse_errors.saturating_add(1);
                    if self.consecutive_parse_errors >= MAX_CONSECUTIVE_PARSE_ERRORS {
                        let ghost m = message@;
                        let text = concat3(
                            decimal(self.consecutive_parse_errors as u128).as_str(),
                            " consecutive malformed SSE frames; last error: ",
                            message.as_str(),
                        );
                        self.buffered.push(LanguageModelEvent::Error { message: text });
                        assert(self.buffered.deep_view() =~= before.buffered.push(
                            garbage_event(self.consecutive_parse_errors, m),
                        ));
                        return;
                    }
                },
            }
            proof {
                k = k + 1;
            }
        }
        assert(all.skip(k).len() == 0);
    }

    /// Takes the end of the bytes.
    pub fn ended(&mut self)
        ensures
            final(self)@ == at_end::<M>(old(self)@),
    {
        let ghost before = self.buffered.deep_view();
        let mut events = self.mapper.flush_end();
        let ghost told = events.deep_view();
        self.buffered.append(&mut events);
        assert(self.buffered.deep_view() =~= before + told);
        if self.buffered.len() == 0 {
            self.done = true;
        }
    }

    /// Takes a failure of the connection: the stream is over then.
    pub fn failed(&mut self)
        ensures
            final(self)@ == stopped(old(self)@),
    {
        self.done = true;
    }
}

/// A stream that is over gives nothing more, whatever is still handed to it.
pub proof fn law_done_is_done<M: FrameMapper>(
    s: StreamView<M::V>,
    decoded: Seq<Result<M::Wire, Seq<char>>>,
)
    requires
        s.done,
    ensures
        pulled::<M>(s) == (s, PullView::End),
        absorbed::<M>(s, decoded).done,
        at_end::<M>(s).done,
        stopped(s).done,
    decreases decoded.len(),
{
    if decoded.len() > 0 {
        match decoded[0] {
            Ok(wire) => {
                let (mapper, events) = M::mapped(s.mapper, wire);
                law_done_is_done::<M>(
                    StreamView { mapper, errors: 0, buffered: s.buffered + events, ..s },
                    decoded.drop_first(),
                );
            },
            Err(message) => {
                let errors = event::capped_sum(s.errors, 1);
                if errors < MAX_CONSECUTIVE_PARSE_ERRORS {
                    law_done_is_done::<M>(StreamView { errors, ..s }, decoded.drop_first());
                }
            },
        }
    }
}

/// No event follows a finish or an error: a stream that hands one out is over, and so is one that
/// hands out a cancellation.
pub proof fn law_nothing_follows_end<M: FrameMapper>(s: StreamView<M::V>, cancelled: bool)
    ensures
        pulled::<M>(s).1 matches PullView::Event(e) ==> (is_end(e) ==> pulled::<M>(s).0.done),
        after_cancel_check(s, cancelled).1 matches PullView::Event(e) ==> (is_end(e)
            ==> after_cancel_check(s, cancelled).0.done),
        after_cancel_check(s, cancelled).1 is Cancelled ==> after_cancel_check(s, cancelled).0.done,
{
}

/// The events that are ever handed out of those that wait: all up to the first that ends the stream.
pub open spec fn visible(events: Seq<ModelEventView>) -> Seq<ModelEventView>
    decreases events.len(),
{
    if events.len() == 0 {
        events
    } else if is_end(events[0]) {
        seq![events[0]]
    } else {
        seq![events[0]] + visible(events.drop_first())
    }
}

/// What a stream hands out, event by event, until it is over or nothing waits.
pub open spec fn handed_out<S>(s: StreamView<S>) -> Seq<ModelEventView>
    decreases s.buffered.len(),
{
    if s.done || s.buffered.len() == 0 {
        Seq::empty()
    } else {
        seq![s.buffered[0]] + handed_out(popped(s).0)
    }
}

/// A stream that is not over hands out the events that wait, in order, up to the first that ends it,
/// and then nothing.
pub proof fn law_handed_out<S>(s: StreamView<S>)
    requires
        !s.done,
    ensures
        handed_out(s) == visible(s.buffered),
    decreases s.buffered.len(),
{
    if s.buffered.len() > 0 {
        let next = popped(s).0;
        if is_end(s.buffered[0]) {
            assert(handed_out(next) =~= Seq::<ModelEventView>::empty());
            assert(handed_out(s) =~= visible(s.buffered));
        } else {
            law_handed_out(next);
        }
    } else {
        assert(handed_out(s) =~= visible(s.buffered));
    }
}

/// Whether one of the events ends the stream.
pub open spec fn has_end(events: Seq<ModelEventView>) -> bool {
    exists|i: int| 0 <= i < events.len() && is_end(#[trigger] events[i])
}

proof fn lemma_visible_hides(a: Seq<ModelEventView>, b: Seq<ModelEventView>)
    requires
        has_end(a),
    ensures
        visible(a + b) == visible(a),
    decreases a.len(),
{
    assert((a + b)[0] == a[0]);
    if !is_end(a[0]) {
        let rest = a.drop_first();
        let i = choose|i: int| 0 <= i < a.len() && is_end(#[trigger] a[i]);
        assert(rest[i - 1] == a[i]);
        lemma_visible_hides(rest, b);
        assert((a + b).drop_first() =~= rest + b);
    }
}

proof fn lemma_absorbed_appends<M: FrameMapper>(
    s: StreamView<M::V>,
    decoded: Seq<Result<M::Wire, Seq<char>>>,
) -> (more: Seq<ModelEventView>)
    ensures
        absorbed::<M>(s, decoded).buffered == s.buffered + more,
        absorbed::<M>(s, decoded).rest == s.rest,
        absorbed::<M>(s, decoded).done == s.done,
    decreases decoded.len(),
{
    if decoded.len() == 0 {
        assert(s.buffered =~= s.buffered + Seq::<ModelEventView>::empty());
        Seq::empty()
    } else {
        match decoded[0] {
            Ok(wire) => {
                let (mapper, events) = M::mapped(s.mapper, wire);
                let next = StreamView { mapper, errors: 0, buffered: s.buffered + events, ..s };
                let more = lemma_absorbed_appends::<M>(next, decoded.drop_first());
                assert(s.buffered + events + more =~= s.buffered + (events + more));
                events + more
            },
            Err(message) => {
                let errors = event::capped_sum(s.errors, 1);
                if errors >= MAX_CONSECUTIVE_PARSE_ERRORS {
                    assert(s.buffered.push(garbage_event(errors, message)) =~= s.buffered + seq![
                        garbage_event(errors, message),
                    ]);
                    seq![garbage_event(errors, message)]
                } else {
                    lemma_absorbed_appends::<M>(StreamView { errors, ..s }, decoded.drop_first())
                }
            },
        }
    }
}

proof fn lemma_absorbed_split<M: FrameMapper>(
    s: StreamView<M::V>,
    x: Seq<Result<M::Wire, Seq<char>>>,
    y: Seq<Result<M::Wire, Seq<char>>>,
)
    ensures
        visible(absorbed::<M>(s, x + y).buffered) == visible(
            absorbed::<M>(absorbed::<M>(s, x), y).buffered,
        ),
        absorbed::<M>(s, x + y).rest == s.rest,
        absorbed::<M>(absorbed::<M>(s, x), y).rest == s.rest,
    decreases x.len(),
{
    let _ = lemma_absorbed_appends::<M>(s, x + y);
    let _ = lemma_absorbed_appends::<M>(s, x);
    let _ = lemma_absorbed_appends::<M>(absorbed::<M>(s, x), y);
    if x.len() == 0 {
        assert(x + y =~= y);
    } else {
        assert((x + y)[0] == x[0]);
        assert((x + y).drop_first() =~= x.drop_first() + y);
        match x[0] {
            Ok(wire) => {
                let (mapper, events) = M::mapped(s.mapper, wire);
                lemma_absorbed_split::<M>(
                    StreamView { mapper, errors: 0, buffered: s.buffered + events, ..s },
                    x.drop_first(),
                    y,
                );
            },
            Err(message) => {
                let errors = event::capped_sum(s.errors, 1);
                if errors >= MAX_CONSECUTIVE_PARSE_ERRORS {
                    let over = absorbed::<M>(s, x);
                    let more = lemma_absorbed_appends::<M>(over, y);
                    assert(is_end(over.buffered[over.buffered.len() - 1]));
                    lemma_visible_hides(over.buffered, more);
                } else {
                    lemma_absorbed_split::<M>(StreamView { errors, ..s }, x.drop_first(), y);
                }
            },
        }
    }
}

proof fn lemma_worth_split(a: Seq<SseFrameView>, b: Seq<SseFrameView>)
    ensures
        worth(a + b) == worth(a) + worth(b),
    decreases b.len(),
{
    if b.len() == 0 {
        assert(a + b =~= a);
        assert(worth(a) + worth(b) =~= worth(a));
    } else {
        lemma_worth_split(a, b.drop_last());
        assert((a + b).drop_last() =~= a + b.drop_last());
        assert((a + b).last() == b.last());
        assert(worth(a + b) =~= worth(a) + worth(b));
    }
}

/// The stream after some bytes, its frames being decoded by `decode`.
pub open spec fn fed<M: FrameMapper>(
    s: StreamView<M::V>,
    decode: spec_fn(SseFrameView) -> Result<M::Wire, Seq<char>>,
    bytes: Seq<u8>,
) -> StreamView<M::V> {
    let all = s.rest + bytes;
    absorbed::<M>(
        StreamView { rest: sse::rest_of(all), ..s },
        worth(sse::frames_of(all)).map_values(decode),
    )
}

/// How the network cuts the bytes into chunks makes no difference to what comes out of the stream:
/// the events that are handed out are the same, and so is what is kept for the next chunk.
pub proof fn law_chunks<M: FrameMapper>(
    s: StreamView<M::V>,
    decode: spec_fn(SseFrameView) -> Result<M::Wire, Seq<char>>,
    a: Seq<u8>,
    b: Seq<u8>,
)
    ensures
        visible(fed::<M>(s, decode, a + b).buffered) == visible(
            fed::<M>(fed::<M>(s, decode, a), decode, b).buffered,
        ),
        fed::<M>(s, decode, a + b).rest == fed::<M>(fed::<M>(s, decode, a), decode, b).rest,
{
    let all = s.rest + a;
    assert(s.rest + (a + b) =~= all + b);
    sse::law_chunks(all, b);
    let first = worth(sse::frames_of(all)).map_values(decode);
    let then = worth(sse::frames_of(sse::rest_of(all) + b)).map_values(decode);
    lemma_worth_split(sse::frames_of(all), sse::frames_of(sse::rest_of(all) + b));
    assert(worth(sse::frames_of(all + b)).map_values(decode) =~= first + then);
    let end = sse::rest_of(all + b);
    lemma_absorbed_split::<M>(StreamView { rest: end, ..s }, first, then);
    lemma_absorbed_rest::<M>(StreamView { rest: sse::rest_of(all), ..s }, first, end);
    let _ = lemma_absorbed_appends::<M>(StreamView { rest: sse::rest_of(all), ..s }, first);
    let _ = lemma_absorbed_appends::<M>(StreamView { rest: end, ..s }, first + then);
    let _ = lemma_absorbed_appends::<M>(
        absorbed::<M>(StreamView { rest: end, ..s }, first),
        then,
    );
}

proof fn lemma_absorbed_rest<M: FrameMapper>(
    s: StreamView<M::V>,
    decoded: Seq<Result<M::Wire, Seq<char>>>,
    rest: Seq<u8>,
)
    ensures
        absorbed::<M>(StreamView { rest, ..s }, decoded) == (StreamView {
            rest,
            ..absorbed::<M>(s, decoded)
        }),
    decreases decoded.len(),
{
    if decoded.len() > 0 {
        match decoded[0] {
            Ok(wire) => {
                let (mapper, events) = M::mapped(s.mapper, wire);
                lemma_absorbed_rest::<M>(
                    StreamView { mapper, errors: 0, buffered: s.buffered + events, ..s },
                    decoded.drop_first(),
                    rest,
                );
            },
            Err(message) => {
                let errors = event::capped_sum(s.errors, 1);
                if errors < MAX_CONSECUTIVE_PARSE_ERRORS {
                    lemma_absorbed_rest::<M>(
                        StreamView { errors, ..s },
                        decoded.drop_first(),
                        rest,
                    );
                }
            },
        }
    }
}

/// Nothing but malformed frames, enough of them in a row, end the stream with an error: the error is
/// the one event that they give.
pub proof fn law_garbage_ends_the_stream<M: FrameMapper>(
    s: StreamView<M::V>,
    decoded: Seq<Result<M::Wire, Seq<char>>>,
)
    requires
        s.errors < MAX_CONSECUTIVE_PARSE_ERRORS,
        s.errors + decoded.len() >= MAX_CONSECUTIVE_PARSE_ERRORS,
        forall|i: int| 0 <= i < decoded.len() ==> (#[trigger] decoded[i]) is Err,
    ensures
        absorbed::<M>(s, decoded).buffered == s.buffered.push(
            garbage_event(
                MAX_CONSECUTIVE_PARSE_ERRORS,
                decoded[MAX_CONSECUTIVE_PARSE_ERRORS - 1 - s.errors]->Err_0,
            ),
        ),
    decreases decoded.len(),
{
    assert(decoded[0] is Err);
    let errors = event::capped_sum(s.errors, 1);
    if errors < MAX_CONSECUTIVE_PARSE_ERRORS {
        let rest = decoded.drop_first();
        assert forall|i: int| 0 <= i < rest.len() implies (#[trigger] rest[i]) is Err by {
            assert(rest[i] == decoded[i + 1]);
        }
        law_garbage_ends_the_stream::<M>(StreamView { errors, ..s }, rest);
        assert(rest[MAX_CONSECUTIVE_PARSE_ERRORS - 1 - errors]
            == decoded[MAX_CONSECUTIVE_PARSE_ERRORS - 1 - s.errors]);
    }
}

} // verus!
