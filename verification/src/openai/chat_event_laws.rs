//! What the chunks of Chat Completions say, and what is told of them.

use crate::flat;
use crate::key_map;
use crate::language_model::event::{FinishReason, ModelEventView, Usage};
use crate::openai::chat;
use crate::openai::chat::{ChatStreamChoice, ChatStreamChunk, ChatStreamToolCall, ChatStreamUsage};
use crate::openai::event_map_chat;
use crate::openai::event_map_chat::ChatMapperView;
use crate::openai::models;
use vstd::prelude::*;

verus! {

/// The text that an event tells.
pub open spec fn text_told(e: ModelEventView) -> Seq<char> {
    match e {
        ModelEventView::TextDelta { delta } => delta,
        _ => Seq::empty(),
    }
}

/// The reasoning that an event tells.
pub open spec fn reasoning_told(e: ModelEventView) -> Seq<char> {
    match e {
        ModelEventView::ReasoningDelta { delta } => delta,
        _ => Seq::empty(),
    }
}

/// The arguments that an event tells of the call with an identifier.
pub open spec fn arguments_told(e: ModelEventView, id: Seq<char>) -> Seq<char> {
    match e {
        ModelEventView::ToolCallDelta { id: of, arguments_delta } => if of == id {
            arguments_delta
        } else {
            Seq::empty()
        },
        _ => Seq::empty(),
    }
}

/// The call of whose start an event tells: its identifier and its name.
pub open spec fn start_told(e: ModelEventView) -> Seq<(Seq<char>, Seq<char>)> {
    match e {
        ModelEventView::ToolCallStart { id, name } => seq![(id, name)],
        _ => Seq::empty(),
    }
}

/// The text in a choice.
pub open spec fn choice_text(choice: ChatStreamChoice) -> Seq<char> {
    match choice.delta.content {
        Some(c) => c@,
        None => Seq::empty(),
    }
}

/// The text in a chunk: that of its choices.
pub open spec fn chunk_text(chunk: ChatStreamChunk) -> Seq<char> {
    chunk.choices@.flat_map(|c: ChatStreamChoice| choice_text(c))
}

/// The fragments of tool calls in a choice.
pub open spec fn choice_fragments(choice: ChatStreamChoice) -> Seq<ChatStreamToolCall> {
    choice.delta.tool_calls@
}

/// The fragments of tool calls in a chunk.
pub open spec fn chunk_fragments(chunk: ChatStreamChunk) -> Seq<ChatStreamToolCall> {
    chunk.choices@.flat_map(|c: ChatStreamChoice| choice_fragments(c))
}

/// The name in a fragment.
pub open spec fn fragment_name(f: ChatStreamToolCall) -> Seq<char> {
    if f.function is Some && f.function->0.name is Some {
        f.function->0.name->0@
    } else {
        Seq::empty()
    }
}

/// The arguments in a fragment.
pub open spec fn fragment_arguments(f: ChatStreamToolCall) -> Seq<char> {
    if f.function is Some && f.function->0.arguments is Some {
        f.function->0.arguments->0@
    } else {
        Seq::empty()
    }
}

/// The identifier of the call at an index: the first that a fragment with that index gives.
pub open spec fn owner(fragments: Seq<ChatStreamToolCall>, index: u32) -> Option<Seq<char>>
    decreases fragments.len(),
{
    if fragments.len() == 0 {
        None
    } else {
        let before = owner(fragments.drop_last(), index);
        if before is Some {
            before
        } else if fragments.last().index == index && fragments.last().id is Some {
            Some(fragments.last().id->0@)
        } else {
            None
        }
    }
}

/// The arguments that some fragments give the call with an identifier.
pub open spec fn arguments_given(fragments: Seq<ChatStreamToolCall>, id: Seq<char>) -> Seq<char>
    decreases fragments.len(),
{
    if fragments.len() == 0 {
        Seq::empty()
    } else {
        arguments_given(fragments.drop_last(), id) + if owner(fragments, fragments.last().index)
            == Some(id) {
            fragment_arguments(fragments.last())
        } else {
            Seq::empty()
        }
    }
}

/// The calls that some fragments start, each with its identifier and its name.
pub open spec fn starts_given(fragments: Seq<ChatStreamToolCall>) -> Seq<(Seq<char>, Seq<char>)>
    decreases fragments.len(),
{
    if fragments.len() == 0 {
        Seq::empty()
    } else {
        let last = fragments.last();
        let before = starts_given(fragments.drop_last());
        if owner(fragments.drop_last(), last.index) is None && last.id is Some {
            before.push((last.id->0@, fragment_name(last)))
        } else {
            before
        }
    }
}

spec fn agrees(m: ChatMapperView, fragments: Seq<ChatStreamToolCall>) -> bool {
    forall|i: u32| #[trigger] key_map::get(m.open_tools, i) == owner(fragments, i)
}

proof fn lemma_call(
    m: ChatMapperView,
    prior: Seq<ChatStreamToolCall>,
    f: ChatStreamToolCall,
    id: Seq<char>,
)
    requires
        agrees(m, prior),
    ensures
        ({
            let (after, events) = event_map_chat::call_mapped(m, f);
            let all = prior.push(f);
            &&& agrees(after, all)
            &&& events.flat_map(|e: ModelEventView| text_told(e)) == Seq::<char>::empty()
            &&& arguments_given(all, id) == arguments_given(prior, id) + events.flat_map(
                |e: ModelEventView| arguments_told(e, id),
            )
            &&& starts_given(all) == starts_given(prior) + events.flat_map(
                |e: ModelEventView| start_told(e),
            )
        }),
{
    let (after, events) = event_map_chat::call_mapped(m, f);
    let all = prior.push(f);
    let t = |e: ModelEventView| text_told(e);
    let g = |e: ModelEventView| arguments_told(e, id);
    let h = |e: ModelEventView| start_told(e);
    assert(all.drop_last() =~= prior);
    let open = key_map::get(m.open_tools, f.index);
    assert(open == owner(prior, f.index));
    assert(event_map_chat::call_arguments(f) == fragment_arguments(f));
    assert(event_map_chat::call_name(f) == fragment_name(f));
    let arguments = fragment_arguments(f);
    match open {
        Some(of) => {
            assert(after == m);
            if arguments.len() == 0 {
                lemma_none(events, id);
            } else {
                let e = ModelEventView::ToolCallDelta { id: of, arguments_delta: arguments };
                assert(events =~= seq![e]);
                flat::lemma_flat_one(e, t);
                flat::lemma_flat_one(e, g);
                flat::lemma_flat_one(e, h);
            }
        },
        None => match f.id {
            Some(of) => {
                let start = ModelEventView::ToolCallStart { id: of@, name: fragment_name(f) };
                let more = event_map_chat::arguments_events(of@, arguments);
                flat::lemma_flat_join(seq![start], more, t);
                flat::lemma_flat_join(seq![start], more, g);
                flat::lemma_flat_join(seq![start], more, h);
                flat::lemma_flat_one(start, t);
                flat::lemma_flat_one(start, g);
                flat::lemma_flat_one(start, h);
                if arguments.len() == 0 {
                    lemma_none(more, id);
                } else {
                    let e = ModelEventView::ToolCallDelta { id: of@, arguments_delta: arguments };
                    assert(more =~= seq![e]);
                    flat::lemma_flat_one(e, t);
                    flat::lemma_flat_one(e, g);
                    flat::lemma_flat_one(e, h);
                }
                assert forall|i: u32| #[trigger] key_map::get(after.open_tools, i) == owner(
                    all,
                    i,
                ) by {
                    key_map::law_put_get::<u32, Seq<char>>(m.open_tools, f.index, of@, i);
                    assert(key_map::get(m.open_tools, i) == owner(prior, i));
                }
            },
            None => {
                lemma_none(events, id);
            },
        },
    }
    assert forall|i: u32| #[trigger] key_map::get(after.open_tools, i) == owner(all, i) by {
        assert(key_map::get(m.open_tools, i) == owner(prior, i));
    }
    assert(events.flat_map(t) =~= Seq::<char>::empty());
    assert(arguments_given(all, id) =~= arguments_given(prior, id) + events.flat_map(g));
    assert(starts_given(all) =~= starts_given(prior) + events.flat_map(h));
}

proof fn lemma_none(events: Seq<ModelEventView>, id: Seq<char>)
    requires
        events.len() == 0,
    ensures
        events.flat_map(|e: ModelEventView| text_told(e)) == Seq::<char>::empty(),
        events.flat_map(|e: ModelEventView| arguments_told(e, id)) == Seq::<char>::empty(),
        events.flat_map(|e: ModelEventView| start_told(e)) == Seq::<(Seq<char>, Seq<char>)>::empty(),
{
    flat::lemma_flat_empty(events, |e: ModelEventView| text_told(e));
    flat::lemma_flat_empty(events, |e: ModelEventView| arguments_told(e, id));
    flat::lemma_flat_empty(events, |e: ModelEventView| start_told(e));
}

proof fn lemma_join(a: Seq<ModelEventView>, b: Seq<ModelEventView>, id: Seq<char>)
    ensures
        (a + b).flat_map(|e: ModelEventView| text_told(e)) == a.flat_map(
            |e: ModelEventView| text_told(e),
        ) + b.flat_map(|e: ModelEventView| text_told(e)),
        (a + b).flat_map(|e: ModelEventView| arguments_told(e, id)) == a.flat_map(
            |e: ModelEventView| arguments_told(e, id),
        ) + b.flat_map(|e: ModelEventView| arguments_told(e, id)),
        (a + b).flat_map(|e: ModelEventView| start_told(e)) == a.flat_map(
            |e: ModelEventView| start_told(e),
        ) + b.flat_map(|e: ModelEventView| start_told(e)),
{
    flat::lemma_flat_join(a, b, |e: ModelEventView| text_told(e));
    flat::lemma_flat_join(a, b, |e: ModelEventView| arguments_told(e, id));
    flat::lemma_flat_join(a, b, |e: ModelEventView| start_told(e));
}

/// What some events tell, as far as it comes out of fragments and of text.
spec fn tells(
    events: Seq<ModelEventView>,
    text: Seq<char>,
    prior: Seq<ChatStreamToolCall>,
    all: Seq<ChatStreamToolCall>,
    id: Seq<char>,
) -> bool {
    &&& events.flat_map(|e: ModelEventView| text_told(e)) == text
    &&& arguments_given(all, id) == arguments_given(prior, id) + events.flat_map(
        |e: ModelEventView| arguments_told(e, id),
    )
    &&& starts_given(all) == starts_given(prior) + events.flat_map(
        |e: ModelEventView| start_told(e),
    )
}

proof fn lemma_tells_join(
    a: Seq<ModelEventView>,
    b: Seq<ModelEventView>,
    text_a: Seq<char>,
    text_b: Seq<char>,
    x: Seq<ChatStreamToolCall>,
    y: Seq<ChatStreamToolCall>,
    z: Seq<ChatStreamToolCall>,
    id: Seq<char>,
)
    requires
        tells(a, text_a, x, y, id),
        tells(b, text_b, y, z, id),
    ensures
        tells(a + b, text_a + text_b, x, z, id),
{
    lemma_join(a, b, id);
    let g = |e: ModelEventView| arguments_told(e, id);
    let h = |e: ModelEventView| start_told(e);
    assert(arguments_given(z, id) =~= arguments_given(x, id) + (a + b).flat_map(g));
    assert(starts_given(z) =~= starts_given(x) + (a + b).flat_map(h));
}

proof fn lemma_tells_nothing(prior: Seq<ChatStreamToolCall>, id: Seq<char>)
    ensures
        tells(Seq::empty(), Seq::empty(), prior, prior, id),
{
    lemma_none(Seq::empty(), id);
    assert(arguments_given(prior, id) + Seq::<char>::empty() =~= arguments_given(prior, id));
    assert(starts_given(prior) + Seq::<(Seq<char>, Seq<char>)>::empty() =~= starts_given(prior));
}

proof fn lemma_calls(
    m: ChatMapperView,
    prior: Seq<ChatStreamToolCall>,
    calls: Seq<ChatStreamToolCall>,
    id: Seq<char>,
)
    requires
        agrees(m, prior),
    ensures
        agrees(event_map_chat::calls_mapped(m, calls).0, prior + calls),
        tells(
            event_map_chat::calls_mapped(m, calls).1,
            Seq::empty(),
            prior,
            prior + calls,
            id,
        ),
    decreases calls.len(),
{
    if calls.len() == 0 {
        assert(prior + calls =~= prior);
        lemma_tells_nothing(prior, id);
    } else {
        let front = calls.drop_last();
        lemma_calls(m, prior, front, id);
        let (before, told) = event_map_chat::calls_mapped(m, front);
        lemma_call(before, prior + front, calls.last(), id);
        assert((prior + front).push(calls.last()) =~= prior + calls);
        lemma_tells_join(
            told,
            event_map_chat::call_mapped(before, calls.last()).1,
            Seq::empty(),
            Seq::empty(),
            prior,
            prior + front,
            prior + calls,
            id,
        );
        assert(Seq::<char>::empty() + Seq::<char>::empty() =~= Seq::<char>::empty());
    }
}

proof fn lemma_text_events(choice: ChatStreamChoice, prior: Seq<ChatStreamToolCall>, id: Seq<char>)
    ensures
        tells(
            event_map_chat::text_events(choice.delta.content),
            choice_text(choice),
            prior,
            prior,
            id,
        ),
{
    let events = event_map_chat::text_events(choice.delta.content);
    lemma_tells_nothing(prior, id);
    if events.len() == 0 {
        assert(events =~= Seq::empty());
        assert(choice_text(choice) =~= Seq::empty());
    } else {
        let e = ModelEventView::TextDelta { delta: choice_text(choice) };
        assert(events =~= seq![e]);
        flat::lemma_flat_one(e, |e: ModelEventView| text_told(e));
        flat::lemma_flat_one(e, |e: ModelEventView| arguments_told(e, id));
        flat::lemma_flat_one(e, |e: ModelEventView| start_told(e));
    }
}

proof fn lemma_choices(
    m: ChatMapperView,
    prior: Seq<ChatStreamToolCall>,
    choices: Seq<ChatStreamChoice>,
    id: Seq<char>,
)
    requires
        agrees(m, prior),
    ensures
        ({
            let (after, events) = event_map_chat::choices_mapped(m, choices);
            let all = prior + choices.flat_map(|c: ChatStreamChoice| choice_fragments(c));
            &&& agrees(after, all)
            &&& tells(
                events,
                choices.flat_map(|c: ChatStreamChoice| choice_text(c)),
                prior,
                all,
                id,
            )
        }),
    decreases choices.len(),
{
    let f = |c: ChatStreamChoice| choice_fragments(c);
    let t = |c: ChatStreamChoice| choice_text(c);
    if choices.len() == 0 {
        flat::lemma_flat_empty(choices, f);
        flat::lemma_flat_empty(choices, t);
        assert(prior + choices.flat_map(f) =~= prior);
        lemma_tells_nothing(prior, id);
    } else {
        let front = choices.drop_last();
        let choice = choices.last();
        lemma_choices(m, prior, front, id);
        let (before, told) = event_map_chat::choices_mapped(m, front);
        let had = prior + front.flat_map(f);
        let calls = choice.delta.tool_calls@;
        lemma_text_events(choice, had, id);
        lemma_calls(before, had, calls, id);
        let text = event_map_chat::text_events(choice.delta.content);
        let more = event_map_chat::calls_mapped(before, calls).1;
        lemma_tells_join(
            text,
            more,
            choice_text(choice),
            Seq::empty(),
            had,
            had,
            had + calls,
            id,
        );
        assert(choice_text(choice) + Seq::<char>::empty() =~= choice_text(choice));
        lemma_tells_join(
            told,
            text + more,
            front.flat_map(t),
            choice_text(choice),
            prior,
            had,
            had + calls,
            id,
        );
        flat::lemma_flat_last(choices, f);
        flat::lemma_flat_last(choices, t);
        assert(had + calls =~= prior + choices.flat_map(f));
        let after = event_map_chat::choices_mapped(m, choices).0;
        assert(after.open_tools == event_map_chat::calls_mapped(before, calls).0.open_tools);
        assert forall|i: u32| #[trigger] key_map::get(after.open_tools, i) == owner(
            had + calls,
            i,
        ) by {
            assert(key_map::get(event_map_chat::calls_mapped(before, calls).0.open_tools, i)
                == owner(had + calls, i));
        }
    }
}

proof fn lemma_chunks(chunks: Seq<ChatStreamChunk>, id: Seq<char>)
    ensures
        ({
            let (after, events) = event_map_chat::all_mapped(event_map_chat::new_mapper(), chunks);
            let all = chunks.flat_map(|c: ChatStreamChunk| chunk_fragments(c));
            &&& agrees(after, all)
            &&& tells(
                events,
                chunks.flat_map(|c: ChatStreamChunk| chunk_text(c)),
                Seq::empty(),
                all,
                id,
            )
        }),
    decreases chunks.len(),
{
    let f = |c: ChatStreamChunk| chunk_fragments(c);
    let t = |c: ChatStreamChunk| chunk_text(c);
    if chunks.len() == 0 {
        flat::lemma_flat_empty(chunks, f);
        flat::lemma_flat_empty(chunks, t);
        lemma_tells_nothing(Seq::empty(), id);
    } else {
        let front = chunks.drop_last();
        let chunk = chunks.last();
        lemma_chunks(front, id);
        let (before, told) = event_map_chat::all_mapped(event_map_chat::new_mapper(), front);
        let had = front.flat_map(f);
        let counted = match chunk.usage {
            Some(u) => ChatMapperView {
                usage: event_map_chat::larger_usage(
                    models::spec_usage(chat::wire_usage(u)),
                    before.usage,
                ),
                ..before
            },
            None => before,
        };
        assert(agrees(counted, had)) by {
            assert forall|i: u32| #[trigger] key_map::get(counted.open_tools, i) == owner(
                had,
                i,
            ) by {
                assert(key_map::get(before.open_tools, i) == owner(had, i));
            }
        }
        lemma_choices(counted, had, chunk.choices@, id);
        flat::lemma_flat_last(chunks, f);
        flat::lemma_flat_last(chunks, t);
        lemma_tells_join(
            told,
            event_map_chat::mapped(before, chunk).1,
            front.flat_map(t),
            chunk_text(chunk),
            Seq::empty(),
            had,
            chunks.flat_map(f),
            id,
        );
    }
}

/// The text that is told of some chunks is the text in them: that of all their choices, in order,
/// character for character.
pub proof fn law_text_is_told(chunks: Seq<ChatStreamChunk>)
    ensures
        event_map_chat::all_mapped(event_map_chat::new_mapper(), chunks).1.flat_map(
            |e: ModelEventView| text_told(e),
        ) == chunks.flat_map(|c: ChatStreamChunk| chunk_text(c)),
{
    lemma_chunks(chunks, Seq::empty());
}

/// The arguments that are told of a call are those in its fragments, in order, character for
/// character. The fragments of a call are those with its index, from the one that names it on.
pub proof fn law_arguments_are_told(chunks: Seq<ChatStreamChunk>, id: Seq<char>)
    ensures
        event_map_chat::all_mapped(event_map_chat::new_mapper(), chunks).1.flat_map(
            |e: ModelEventView| arguments_told(e, id),
        ) == arguments_given(chunks.flat_map(|c: ChatStreamChunk| chunk_fragments(c)), id),
{
    lemma_chunks(chunks, id);
    let events = event_map_chat::all_mapped(event_map_chat::new_mapper(), chunks).1;
    let g = |e: ModelEventView| arguments_told(e, id);
    assert(Seq::<char>::empty() + events.flat_map(g) =~= events.flat_map(g));
}

/// The calls whose starts are told are those that the fragments start, in order, each under its
/// identifier and its name, and each once.
pub proof fn law_starts_are_told(chunks: Seq<ChatStreamChunk>)
    ensures
        event_map_chat::all_mapped(event_map_chat::new_mapper(), chunks).1.flat_map(
            |e: ModelEventView| start_told(e),
        ) == starts_given(chunks.flat_map(|c: ChatStreamChunk| chunk_fragments(c))),
{
    lemma_chunks(chunks, Seq::empty());
    let events = event_map_chat::all_mapped(event_map_chat::new_mapper(), chunks).1;
    let h = |e: ModelEventView| start_told(e);
    assert(Seq::<(Seq<char>, Seq<char>)>::empty() + events.flat_map(h) =~= events.flat_map(h));
}

/// The provider's words for the end in a choice.
pub open spec fn choice_words(choice: ChatStreamChoice) -> Seq<Seq<char>> {
    match choice.finish_reason {
        Some(word) => seq![word@],
        None => Seq::empty(),
    }
}

/// The provider's words for the end in a chunk.
pub open spec fn chunk_words(chunk: ChatStreamChunk) -> Seq<Seq<char>> {
    chunk.choices@.flat_map(|c: ChatStreamChoice| choice_words(c))
}

/// The token counts in a chunk.
pub open spec fn chunk_counts(chunk: ChatStreamChunk) -> Seq<ChatStreamUsage> {
    match chunk.usage {
        Some(u) => seq![u],
        None => Seq::empty(),
    }
}

/// Whether a number is the largest of some, or zero where there are none.
pub open spec fn is_largest(n: u32, of: Seq<u32>) -> bool {
    &&& forall|i: int| 0 <= i < of.len() ==> n >= #[trigger] of[i]
    &&& if of.len() == 0 {
        n == 0
    } else {
        of.contains(n)
    }
}

pub(crate) proof fn lemma_largest_push(n: u32, of: Seq<u32>, x: u32, m: u32)
    requires
        is_largest(n, of),
        m == if x >= n {
            x
        } else {
            n
        },
    ensures
        is_largest(m, of.push(x)),
{
    let all = of.push(x);
    assert(all[of.len() as int] == x);
    if x < n {
        assert(of.len() > 0);
        let i = choose|i: int| 0 <= i < of.len() && of[i] == n;
        assert(all[i] == n);
    }
}

/// Whether counts are the largest that were reported.
pub open spec fn counts_largest(usage: Usage, counts: Seq<ChatStreamUsage>) -> bool {
    &&& is_largest(usage.input_tokens, counts.map_values(|u: ChatStreamUsage| u.prompt_tokens))
    &&& is_largest(usage.output_tokens, counts.map_values(|u: ChatStreamUsage| u.completion_tokens))
    &&& is_largest(
        usage.cached_input_tokens,
        counts.map_values(|u: ChatStreamUsage| cached_in(u)),
    )
}

/// The input tokens that came out of a cache.
pub open spec fn cached_in(u: ChatStreamUsage) -> u32 {
    if u.prompt_tokens_details is Some {
        u.prompt_tokens_details->0.cached_tokens
    } else {
        0
    }
}

proof fn lemma_calls_keep(m: ChatMapperView, calls: Seq<ChatStreamToolCall>)
    ensures
        event_map_chat::calls_mapped(m, calls).0.finish_reason == m.finish_reason,
        event_map_chat::calls_mapped(m, calls).0.usage == m.usage,
        event_map_chat::calls_mapped(m, calls).0.finished == m.finished,
    decreases calls.len(),
{
    if calls.len() > 0 {
        lemma_calls_keep(m, calls.drop_last());
    }
}

/// The reason that a word for the end stands for.
pub open spec fn word_of(words: Seq<Seq<char>>) -> Option<FinishReason> {
    if words.len() == 0 {
        None
    } else {
        Some(event_map_chat::finish_reason_of(words.last()))
    }
}

proof fn lemma_choices_end(m: ChatMapperView, words: Seq<Seq<char>>, choices: Seq<ChatStreamChoice>)
    requires
        m.finish_reason == word_of(words),
    ensures
        ({
            let after = event_map_chat::choices_mapped(m, choices).0;
            &&& after.finish_reason == word_of(
                words + choices.flat_map(|c: ChatStreamChoice| choice_words(c)),
            )
            &&& after.usage == m.usage
            &&& after.finished == m.finished
        }),
    decreases choices.len(),
{
    let w = |c: ChatStreamChoice| choice_words(c);
    if choices.len() == 0 {
        flat::lemma_flat_empty(choices, w);
        assert(words + choices.flat_map(w) =~= words);
    } else {
        lemma_choices_end(m, words, choices.drop_last());
        let before = event_map_chat::choices_mapped(m, choices.drop_last()).0;
        lemma_calls_keep(before, choices.last().delta.tool_calls@);
        flat::lemma_flat_last(choices, w);
        let had = words + choices.drop_last().flat_map(w);
        assert(words + choices.flat_map(w) =~= had + choice_words(choices.last()));
        if choices.last().finish_reason is None {
            assert(had + choice_words(choices.last()) =~= had);
        }
    }
}

proof fn lemma_chunks_end(chunks: Seq<ChatStreamChunk>)
    ensures
        ({
            let m = event_map_chat::all_mapped(event_map_chat::new_mapper(), chunks).0;
            &&& m.finish_reason == word_of(chunks.flat_map(|c: ChatStreamChunk| chunk_words(c)))
            &&& counts_largest(m.usage, chunks.flat_map(|c: ChatStreamChunk| chunk_counts(c)))
            &&& !m.finished
        }),
    decreases chunks.len(),
{
    let w = |c: ChatStreamChunk| chunk_words(c);
    let n = |c: ChatStreamChunk| chunk_counts(c);
    if chunks.len() == 0 {
        flat::lemma_flat_empty(chunks, w);
        flat::lemma_flat_empty(chunks, n);
    } else {
        let front = chunks.drop_last();
        let chunk = chunks.last();
        lemma_chunks_end(front);
        flat::lemma_flat_last(chunks, w);
        flat::lemma_flat_last(chunks, n);
        let before = event_map_chat::all_mapped(event_map_chat::new_mapper(), front).0;
        let had = front.flat_map(n);
        let a = |u: ChatStreamUsage| u.prompt_tokens;
        let b = |u: ChatStreamUsage| u.completion_tokens;
        let c = |u: ChatStreamUsage| cached_in(u);
        match chunk.usage {
            Some(u) => {
                let usage = event_map_chat::larger_usage(
                    models::spec_usage(chat::wire_usage(u)),
                    before.usage,
                );
                let counted = ChatMapperView { usage, ..before };
                lemma_choices_end(counted, front.flat_map(w), chunk.choices@);
                assert(had + seq![u] =~= had.push(u));
                lemma_largest_push(
                    before.usage.input_tokens,
                    had.map_values(a),
                    u.prompt_tokens,
                    usage.input_tokens,
                );
                lemma_largest_push(
                    before.usage.output_tokens,
                    had.map_values(b),
                    u.completion_tokens,
                    usage.output_tokens,
                );
                lemma_largest_push(
                    before.usage.cached_input_tokens,
                    had.map_values(c),
                    cached_in(u),
                    usage.cached_input_tokens,
                );
                assert(had.push(u).map_values(a) =~= had.map_values(a).push(u.prompt_tokens));
                assert(had.push(u).map_values(b) =~= had.map_values(b).push(u.completion_tokens));
                assert(had.push(u).map_values(c) =~= had.map_values(c).push(cached_in(u)));
            },
            None => {
                lemma_choices_end(before, front.flat_map(w), chunk.choices@);
                assert(chunks.flat_map(n) =~= had);
            },
        }
    }
}

/// The end that is told after some chunks has the reason that the provider gave last, by its word
/// for it, and the largest token counts that it reported; it is a plain stop where the provider gave
/// no reason.
pub proof fn law_end_is_told(chunks: Seq<ChatStreamChunk>)
    ensures
        ({
            let m = event_map_chat::all_mapped(event_map_chat::new_mapper(), chunks).0;
            let words = chunks.flat_map(|c: ChatStreamChunk| chunk_words(c));
            let last = event_map_chat::flushed(m).1.last();
            &&& last matches ModelEventView::Finish { reason, usage }
            &&& counts_largest(usage, chunks.flat_map(|c: ChatStreamChunk| chunk_counts(c)))
            &&& words.len() == 0 ==> reason == FinishReason::Stop
            &&& words.len() > 0 ==> word_means(words.last(), reason)
        }),
{
    lemma_chunks_end(chunks);
    let words = chunks.flat_map(|c: ChatStreamChunk| chunk_words(c));
    if words.len() > 0 {
        lemma_words(words.last());
    }
}

/// What a word for the end means.
pub open spec fn word_means(word: Seq<char>, reason: FinishReason) -> bool {
    &&& word == "stop"@ ==> reason == FinishReason::Stop
    &&& word == "length"@ ==> reason == FinishReason::Length
    &&& word == "tool_calls"@ ==> reason == FinishReason::ToolUse
    &&& word == "function_call"@ ==> reason == FinishReason::ToolUse
    &&& word == "content_filter"@ ==> reason == FinishReason::ContentFilter
    &&& word != "stop"@ && word != "length"@ && word != "tool_calls"@ && word != "function_call"@
        && word != "content_filter"@ ==> reason == FinishReason::Other
}

proof fn lemma_words(word: Seq<char>)
    ensures
        word_means(word, event_map_chat::finish_reason_of(word)),
{
    reveal_strlit("stop");
    reveal_strlit("length");
    reveal_strlit("tool_calls");
    reveal_strlit("function_call");
    reveal_strlit("content_filter");
    assert("stop"@.len() == 4 && "length"@.len() == 6 && "tool_calls"@.len() == 10);
    assert("function_call"@.len() == 13 && "content_filter"@.len() == 14);
}

} // verus!
