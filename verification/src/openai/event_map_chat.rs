//! From the chunks of the Chat Completions API to model events.
//!
//! A chunk carries fragments of text and of tool calls; tool calls are told apart by their index,
//! and only the first fragment of a call names it. The reason for the end and the token counts
//! come in chunks of their own, and nothing marks the end of the stream itself, so the end of the
//! calls and of the stream is told by [`ChatEventMapper::flush`].

use crate::anthropic::event_map;
use crate::key_map;
use crate::key_map::KeyMap;
use crate::language_model::event::{FinishReason, LanguageModelEvent, ModelEventView, Usage};
use crate::openai::chat;
use crate::openai::chat::{ChatStreamChoice, ChatStreamChunk, ChatStreamToolCall};
use crate::openai::models;
use crate::text::same_text;
use vstd::multiset::Multiset;
use vstd::prelude::*;
use vstd::string::*;

verus! {

/// The mapper: the tool calls that are open, by index, and what is known of the end.
#[derive(Debug, PartialEq, Eq)]
pub struct ChatEventMapper {
    open_tools: KeyMap<u32, String>,
    finish_reason: Option<FinishReason>,
    usage: Usage,
    finished: bool,
}

/// Model of the mapper.
#[verifier::ext_equal]
pub struct ChatMapperView {
    pub open_tools: Seq<(u32, Seq<char>)>,
    pub finish_reason: Option<FinishReason>,
    pub usage: Usage,
    pub finished: bool,
}

impl View for ChatEventMapper {
    type V = ChatMapperView;

    closed spec fn view(&self) -> ChatMapperView {
        ChatMapperView {
            open_tools: self.open_tools@,
            finish_reason: self.finish_reason,
            usage: self.usage,
            finished: self.finished,
        }
    }
}

impl DeepView for ChatEventMapper {
    type V = ChatMapperView;

    open spec fn deep_view(&self) -> ChatMapperView {
        self@
    }
}

/// A mapper that has seen nothing.
pub open spec fn new_mapper() -> ChatMapperView {
    ChatMapperView {
        open_tools: Seq::empty(),
        finish_reason: None,
        usage: crate::language_model::event::no_usage(),
        finished: false,
    }
}

/// The larger counts of two usages.
pub open spec fn larger_usage(a: Usage, b: Usage) -> Usage {
    Usage {
        input_tokens: event_map::larger(a.input_tokens, b.input_tokens),
        output_tokens: event_map::larger(a.output_tokens, b.output_tokens),
        cached_input_tokens: event_map::larger(a.cached_input_tokens, b.cached_input_tokens),
    }
}

/// Why the provider stopped, by its own word for it.
pub open spec fn finish_reason_of(s: Seq<char>) -> FinishReason {
    if s == "stop"@ {
        FinishReason::Stop
    } else if s == "length"@ {
        FinishReason::Length
    } else if s == "tool_calls"@ || s == "function_call"@ {
        FinishReason::ToolUse
    } else if s == "content_filter"@ {
        FinishReason::ContentFilter
    } else {
        FinishReason::Other
    }
}

/// The name in a fragment of a call, empty where there is none.
pub open spec fn call_name(tc: ChatStreamToolCall) -> Seq<char> {
    match tc.function {
        Some(f) => match f.name {
            Some(name) => name@,
            None => Seq::empty(),
        },
        None => Seq::empty(),
    }
}

/// The arguments in a fragment of a call, empty where there are none.
pub open spec fn call_arguments(tc: ChatStreamToolCall) -> Seq<char> {
    match tc.function {
        Some(f) => match f.arguments {
            Some(arguments) => arguments@,
            None => Seq::empty(),
        },
        None => Seq::empty(),
    }
}

/// The event of a fragment of arguments, where the fragment is not empty.
pub open spec fn arguments_events(id: Seq<char>, arguments: Seq<char>) -> Seq<ModelEventView> {
    if arguments.len() == 0 {
        Seq::empty()
    } else {
        seq![ModelEventView::ToolCallDelta { id, arguments_delta: arguments }]
    }
}

/// The mapper after a fragment of a tool call, and what the fragment means. The first fragment
/// opens the call; one that neither opens a call nor belongs to an open one is dropped.
pub open spec fn call_mapped(m: ChatMapperView, tc: ChatStreamToolCall) -> (
    ChatMapperView,
    Seq<ModelEventView>,
) {
    match key_map::get(m.open_tools, tc.index) {
        Some(id) => (m, arguments_events(id, call_arguments(tc))),
        None => match tc.id {
            Some(id) => (
                ChatMapperView {
                    open_tools: key_map::put::<u32, Seq<char>>(m.open_tools, tc.index, id@),
                    ..m
                },
                seq![ModelEventView::ToolCallStart { id: id@, name: call_name(tc) }]
                    + arguments_events(id@, call_arguments(tc)),
            ),
            None => (m, Seq::empty()),
        },
    }
}

/// The mapper after some fragments of tool calls, and what they mean.
pub open spec fn calls_mapped(m: ChatMapperView, calls: Seq<ChatStreamToolCall>) -> (
    ChatMapperView,
    Seq<ModelEventView>,
)
    decreases calls.len(),
{
    if calls.len() == 0 {
        (m, Seq::empty())
    } else {
        let (before, told) = calls_mapped(m, calls.drop_last());
        let (after, more) = call_mapped(before, calls.last());
        (after, told + more)
    }
}

/// The event of a fragment of text, where the fragment is not empty.
pub open spec fn text_events(content: Option<String>) -> Seq<ModelEventView> {
    match content {
        Some(c) => if c@.len() == 0 {
            Seq::empty()
        } else {
            seq![ModelEventView::TextDelta { delta: c@ }]
        },
        None => Seq::empty(),
    }
}

/// The mapper after one choice of a chunk, and what it means: its text, then its tool calls; the
/// reason for the end is kept for later.
pub open spec fn choice_mapped(m: ChatMapperView, choice: ChatStreamChoice) -> (
    ChatMapperView,
    Seq<ModelEventView>,
) {
    let text = text_events(choice.delta.content);
    let (after, more) = calls_mapped(m, choice.delta.tool_calls@);
    (
        match choice.finish_reason {
            Some(reason) => ChatMapperView {
                finish_reason: Some(finish_reason_of(reason@)),
                ..after
            },
            None => after,
        },
        text + more,
    )
}

/// The mapper after some choices of a chunk, and what they mean.
pub open spec fn choices_mapped(m: ChatMapperView, choices: Seq<ChatStreamChoice>) -> (
    ChatMapperView,
    Seq<ModelEventView>,
)
    decreases choices.len(),
{
    if choices.len() == 0 {
        (m, Seq::empty())
    } else {
        let (before, told) = choices_mapped(m, choices.drop_last());
        let (after, more) = choice_mapped(before, choices.last());
        (after, told + more)
    }
}

/// The mapper after a chunk, and the model events that it means.
pub open spec fn mapped(m: ChatMapperView, chunk: ChatStreamChunk) -> (
    ChatMapperView,
    Seq<ModelEventView>,
) {
    let counted = match chunk.usage {
        Some(u) => ChatMapperView {
            usage: larger_usage(models::spec_usage(chat::wire_usage(u)), m.usage),
            ..m
        },
        None => m,
    };
    choices_mapped(counted, chunk.choices@)
}

/// The mapper at the end of the stream, and what the end means: the end of each open call, by
/// index, and then of the stream; nothing the second time.
pub open spec fn flushed(m: ChatMapperView) -> (ChatMapperView, Seq<ModelEventView>) {
    if m.finished {
        (m, Seq::empty())
    } else {
        (
            ChatMapperView { open_tools: Seq::empty(), finished: true, ..m },
            m.open_tools.map_values(
                |p: (u32, Seq<char>)| ModelEventView::ToolCallEnd { id: p.1, arguments: None },
            ).push(
                ModelEventView::Finish {
                    reason: match m.finish_reason {
                        Some(reason) => reason,
                        None => FinishReason::Stop,
                    },
                    usage: m.usage,
                },
            ),
        )
    }
}

/// Why the provider stopped, by its own word for it.
pub fn map_finish_reason(s: &str) -> (r: FinishReason)
    ensures
        r == finish_reason_of(s@),
{
    if same_text(s, "stop") {
        FinishReason::Stop
    } else if same_text(s, "length") {
        FinishReason::Length
    } else if same_text(s, "tool_calls") || same_text(s, "function_call") {
        FinishReason::ToolUse
    } else if same_text(s, "content_filter") {
        FinishReason::ContentFilter
    } else {
        FinishReason::Other
    }
}

fn larger(a: u32, b: u32) -> (r: u32)
    ensures
        r == event_map::larger(a, b),
{
    if a >= b {
        a
    } else {
        b
    }
}

impl ChatEventMapper {
    /// A mapper that has seen nothing.
    pub fn new() -> (r: Self)
        ensures
            r@ == new_mapper(),
    {
        ChatEventMapper {
            open_tools: KeyMap::new(),
            finish_reason: None,
            usage: Usage { input_tokens: 0, output_tokens: 0, cached_input_tokens: 0 },
            finished: false,
        }
    }

    /// Takes in a fragment of a tool call, and adds what it means.
    pub fn handle_tool_call(
        &mut self,
        tc: &ChatStreamToolCall,
        out: &mut Vec<LanguageModelEvent>,
    )
        ensures
            final(self)@ == call_mapped(old(self)@, *tc).0,
            final(out).deep_view() == old(out).deep_view() + call_mapped(old(self)@, *tc).1,
    {
        let ghost told = out.deep_view();
        let ghost m = self@;
        let known: Option<String> = match self.open_tools.get(&tc.index) {
            Some(id) => Some(id.clone()),
            None => None,
        };
        let id: String = match known {
            Some(id) => id,
            None => {
                let id = match &tc.id {
                    Some(id) => id.clone(),
                    None => {
                        assert(out.deep_view() =~= told + Seq::<ModelEventView>::empty());
                        return;
                    },
                };
                let name = match &tc.function {
                    Some(f) => match &f.name {
                        Some(name) => name.clone(),
                        None => String::new(),
                    },
                    None => String::new(),
                };
                self.open_tools.insert(tc.index, id.clone());
                out.push(LanguageModelEvent::ToolCallStart { id: id.clone(), name });
                assert(out.deep_view() =~= told.push(
                    ModelEventView::ToolCallStart { id: id@, name: call_name(*tc) },
                ));
                id
            },
        };
        let ghost started = out.deep_view();
        match &tc.function {
            Some(f) => match &f.arguments {
                Some(arguments) => {
                    if !arguments.as_str().is_empty() {
                        let ghost key = id@;
                        out.push(
                            LanguageModelEvent::ToolCallDelta {
                                id,
                                arguments_delta: arguments.clone(),
                            },
                        );
                        assert(out.deep_view() =~= started.push(
                            ModelEventView::ToolCallDelta {
                                id: key,
                                arguments_delta: arguments@,
                            },
                        ));
                    }
                },
                None => {},
            },
            None => {},
        }
        assert(out.deep_view() =~= told + call_mapped(m, *tc).1);
    }

    /// Takes in one choice of a chunk, and adds what it means.
    fn map_choice(&mut self, choice: &ChatStreamChoice, out: &mut Vec<LanguageModelEvent>)
        ensures
            final(self)@ == choice_mapped(old(self)@, *choice).0,
            final(out).deep_view() == old(out).deep_view() + choice_mapped(old(self)@, *choice).1,
    {
        let ghost told = out.deep_view();
        let ghost m = self@;
        let ghost calls = choice.delta.tool_calls@;
        let ghost text = text_events(choice.delta.content);
        match &choice.delta.content {
            Some(c) => {
                if !c.as_str().is_empty() {
                    out.push(LanguageModelEvent::TextDelta { delta: c.clone() });
                }
            },
            None => {},
        }
        assert(out.deep_view() =~= told + text);
        let mut i: usize = 0;
        assert(calls.take(0) =~= Seq::empty());
        assert(out.deep_view() =~= told + text + calls_mapped(m, calls.take(0)).1);
        while i < choice.delta.tool_calls.len()
            invariant
                i <= choice.delta.tool_calls@.len(),
                calls == choice.delta.tool_calls@,
                self@ == calls_mapped(m, calls.take(i as int)).0,
                out.deep_view() == told + text + calls_mapped(m, calls.take(i as int)).1,
            decreases choice.delta.tool_calls@.len() - i,
        {
            assert(calls.take(i + 1).drop_last() =~= calls.take(i as int));
            self.handle_tool_call(&choice.delta.tool_calls[i], out);
            assert(out.deep_view() =~= told + text + calls_mapped(m, calls.take(i + 1)).1);
            i = i + 1;
        }
        assert(calls.take(i as int) =~= calls);
        match &choice.finish_reason {
            Some(reason) => {
                self.finish_reason = Some(map_finish_reason(reason.as_str()));
            },
            None => {},
        }
        assert(out.deep_view() =~= told + choice_mapped(m, *choice).1);
    }

    /// Takes in a chunk, and gives the model events that it means.
    pub fn map(&mut self, chunk: ChatStreamChunk) -> (r: Vec<LanguageModelEvent>)
        ensures
            (final(self)@, r.deep_view()) == mapped(old(self)@, chunk),
    {
        let mut out: Vec<LanguageModelEvent> = Vec::new();
        match chunk.usage {
            Some(u) => {
                let spec = u.into_wire().into_spec();
                self.usage = Usage {
                    input_tokens: larger(spec.input_tokens, self.usage.input_tokens),
                    output_tokens: larger(spec.output_tokens, self.usage.output_tokens),
                    cached_input_tokens: larger(
                        spec.cached_input_tokens,
                        self.usage.cached_input_tokens,
                    ),
                };
            },
            None => {},
        }
        let ghost m = self@;
        let ghost choices = chunk.choices@;
        let mut i: usize = 0;
        assert(choices.take(0) =~= Seq::empty());
        assert(out.deep_view() =~= choices_mapped(m, choices.take(0)).1);
        while i < chunk.choices.len()
            invariant
                i <= chunk.choices@.len(),
                choices == chunk.choices@,
                self@ == choices_mapped(m, choices.take(i as int)).0,
                out.deep_view() == choices_mapped(m, choices.take(i as int)).1,
            decreases chunk.choices@.len() - i,
        {
            assert(choices.take(i + 1).drop_last() =~= choices.take(i as int));
            self.map_choice(&chunk.choices[i], &mut out);
            i = i + 1;
        }
        assert(choices.take(i as int) =~= choices);
        out
    }

    /// Tells the end of the open calls and of the stream, once the bytes have ended.
    pub fn flush(&mut self) -> (r: Vec<LanguageModelEvent>)
        ensures
            (final(self)@, r.deep_view()) == flushed(old(self)@),
    {
        let mut out: Vec<LanguageModelEvent> = Vec::new();
        if self.finished {
            assert(out.deep_view() =~= Seq::<ModelEventView>::empty());
            return out;
        }
        self.finished = true;
        let ghost open = self.open_tools@;
        let ghost ends = open.map_values(
            |p: (u32, Seq<char>)| ModelEventView::ToolCallEnd { id: p.1, arguments: None },
        );
        let mut i: usize = 0;
        assert(out.deep_view() =~= ends.take(0));
        while i < self.open_tools.len()
            invariant
                i <= self.open_tools@.len(),
                open == self.open_tools@,
                ends == open.map_values(
                    |p: (u32, Seq<char>)| ModelEventView::ToolCallEnd { id: p.1, arguments: None },
                ),
                out.deep_view() == ends.take(i as int),
            decreases self.open_tools@.len() - i,
        {
            let ghost so_far = out.deep_view();
            let id = self.open_tools.value_at(i).clone();
            let ghost key = id@;
            out.push(LanguageModelEvent::ToolCallEnd { id, arguments: None });
            assert(out.deep_view() =~= so_far.push(
                ModelEventView::ToolCallEnd { id: key, arguments: None },
            ));
            assert(ends.take(i + 1) =~= so_far.push(ends[i as int]));
            i = i + 1;
        }
        assert(ends.take(i as int) =~= ends);
        self.open_tools = KeyMap::new();
        let reason = match self.finish_reason {
            Some(reason) => reason,
            None => FinishReason::Stop,
        };
        let ghost so_far = out.deep_view();
        out.push(LanguageModelEvent::Finish { reason, usage: self.usage });
        assert(out.deep_view() =~= so_far.push(
            ModelEventView::Finish { reason, usage: self.usage },
        ));
        out
    }
}

/// The end of the stream is told once: the first time as the last event, the second time not.
pub proof fn law_one_finish(m: ChatMapperView)
    ensures
        !m.finished ==> flushed(m).1.last() is Finish,
        !m.finished ==> forall|i: int|
            0 <= i < flushed(m).1.len() - 1 ==> (#[trigger] flushed(m).1[i]) is ToolCallEnd,
        flushed(flushed(m).0) == (flushed(m).0, Seq::<ModelEventView>::empty()),
{
}

/// The identifiers of the calls that some events start.
pub open spec fn started(events: Seq<ModelEventView>) -> Multiset<Seq<char>>
    decreases events.len(),
{
    if events.len() == 0 {
        Multiset::empty()
    } else {
        match events.last() {
            ModelEventView::ToolCallStart { id, .. } => started(events.drop_last()).insert(id),
            _ => started(events.drop_last()),
        }
    }
}

/// The identifiers of the calls that some events end.
pub open spec fn ended(events: Seq<ModelEventView>) -> Multiset<Seq<char>>
    decreases events.len(),
{
    if events.len() == 0 {
        Multiset::empty()
    } else {
        match events.last() {
            ModelEventView::ToolCallEnd { id, .. } => ended(events.drop_last()).insert(id),
            _ => ended(events.drop_last()),
        }
    }
}

/// The identifiers of the open calls.
pub open spec fn open_ids(open: Seq<(u32, Seq<char>)>) -> Multiset<Seq<char>> {
    open.map_values(|p: (u32, Seq<char>)| p.1).to_multiset()
}

/// The mapper after some chunks, and what they mean.
pub open spec fn all_mapped(m: ChatMapperView, chunks: Seq<ChatStreamChunk>) -> (
    ChatMapperView,
    Seq<ModelEventView>,
)
    decreases chunks.len(),
{
    if chunks.len() == 0 {
        (m, Seq::empty())
    } else {
        let (before, told) = all_mapped(m, chunks.drop_last());
        let (after, more) = mapped(before, chunks.last());
        (after, told + more)
    }
}

proof fn lemma_started_split(a: Seq<ModelEventView>, b: Seq<ModelEventView>)
    ensures
        started(a + b) == started(a).add(started(b)),
    decreases b.len(),
{
    if b.len() == 0 {
        assert(a + b =~= a);
        assert(started(a).add(started(b)) =~= started(a));
    } else {
        lemma_started_split(a, b.drop_last());
        assert((a + b).drop_last() =~= a + b.drop_last());
        assert(started(a + b) =~= started(a).add(started(b)));
    }
}

proof fn lemma_open_push(open: Seq<(u32, Seq<char>)>, p: Seq<(u32, Seq<char>)>, k: u32, id: Seq<char>)
    requires
        p.to_multiset() == open.to_multiset().insert((k, id)),
    ensures
        open_ids(p) == open_ids(open).insert(id),
{
    broadcast use vstd::seq_lib::group_to_multiset_ensures;

    let f = |p: (u32, Seq<char>)| p.1;
    let q = open.push((k, id));
    assert(q.to_multiset() =~= p.to_multiset());
    lemma_map_multiset(p, q);
    assert(q.map_values(f) =~= open.map_values(f).push(id));
}

proof fn lemma_map_multiset(a: Seq<(u32, Seq<char>)>, b: Seq<(u32, Seq<char>)>)
    requires
        a.to_multiset() == b.to_multiset(),
    ensures
        open_ids(a) == open_ids(b),
    decreases a.len(),
{
    broadcast use vstd::seq_lib::group_to_multiset_ensures;

    let f = |p: (u32, Seq<char>)| p.1;
    assert(a.len() == a.to_multiset().len());
    assert(b.len() == b.to_multiset().len());
    if a.len() > 0 {
        let x = a.last();
        assert(a.to_multiset().contains(x)) by {
            assert(a.contains(x));
        }
        assert(b.contains(x));
        let j = choose|j: int| 0 <= j < b.len() && b[j] == x;
        let front = a.drop_last();
        let rest = b.remove(j);
        assert(front.push(x) =~= a);
        assert(a.to_multiset() =~= front.to_multiset().insert(x));
        vstd::seq_lib::to_multiset_remove(b, j);
        assert(front.to_multiset() =~= rest.to_multiset());
        lemma_map_multiset(front, rest);
        assert(a.map_values(f) =~= front.map_values(f).push(f(x)));
        assert(b.map_values(f).remove(j) =~= rest.map_values(f));
        vstd::seq_lib::to_multiset_remove(b.map_values(f), j);
        assert(b.map_values(f)[j] == f(x));
        assert(b.map_values(f).contains(f(x)));
        assert(b.map_values(f).to_multiset() =~= rest.map_values(f).to_multiset().insert(f(x)));
    } else {
        assert(b =~= a);
    }
}

/// The calls of a mapper stand by index, none twice.
pub open spec fn valid(m: ChatMapperView) -> bool {
    key_map::in_order::<u32, Seq<char>>(m.open_tools)
}

proof fn lemma_call_started(m: ChatMapperView, tc: ChatStreamToolCall)
    requires
        valid(m),
    ensures
        valid(call_mapped(m, tc).0),
        open_ids(call_mapped(m, tc).0.open_tools) == open_ids(m.open_tools).add(
            started(call_mapped(m, tc).1),
        ),
{
    let events = call_mapped(m, tc).1;
    reveal_with_fuel(started, 3);
    match key_map::get(m.open_tools, tc.index) {
        Some(id) => {
            assert(started(events) =~= Multiset::empty());
        },
        None => match tc.id {
            Some(id) => {
                key_map::law_put_new::<u32, Seq<char>>(m.open_tools, tc.index, id@);
                lemma_open_push(
                    m.open_tools,
                    call_mapped(m, tc).0.open_tools,
                    tc.index,
                    id@,
                );
                let start = seq![ModelEventView::ToolCallStart { id: id@, name: call_name(tc) }];
                lemma_started_split(start, arguments_events(id@, call_arguments(tc)));
                assert(start.drop_last() =~= Seq::<ModelEventView>::empty());
                assert(started(start) =~= Multiset::empty().insert(id@));
                assert(started(arguments_events(id@, call_arguments(tc))) =~= Multiset::empty());
                assert(started(events) =~= Multiset::empty().insert(id@));
                assert(open_ids(m.open_tools).add(started(events)) =~= open_ids(
                    m.open_tools,
                ).insert(id@));
            },
            None => {},
        },
    }
    assert(open_ids(call_mapped(m, tc).0.open_tools) =~= open_ids(m.open_tools).add(
        started(events),
    ));
}

proof fn lemma_calls_started(m: ChatMapperView, calls: Seq<ChatStreamToolCall>)
    requires
        valid(m),
    ensures
        valid(calls_mapped(m, calls).0),
        open_ids(calls_mapped(m, calls).0.open_tools) == open_ids(m.open_tools).add(
            started(calls_mapped(m, calls).1),
        ),
    decreases calls.len(),
{
    if calls.len() > 0 {
        lemma_calls_started(m, calls.drop_last());
        let (before, told) = calls_mapped(m, calls.drop_last());
        lemma_call_started(before, calls.last());
        lemma_started_split(told, call_mapped(before, calls.last()).1);
    }
    assert(open_ids(calls_mapped(m, calls).0.open_tools) =~= open_ids(m.open_tools).add(
        started(calls_mapped(m, calls).1),
    ));
}

proof fn lemma_choices_started(m: ChatMapperView, choices: Seq<ChatStreamChoice>)
    requires
        valid(m),
    ensures
        valid(choices_mapped(m, choices).0),
        open_ids(choices_mapped(m, choices).0.open_tools) == open_ids(m.open_tools).add(
            started(choices_mapped(m, choices).1),
        ),
    decreases choices.len(),
{
    if choices.len() > 0 {
        lemma_choices_started(m, choices.drop_last());
        let (before, told) = choices_mapped(m, choices.drop_last());
        let choice = choices.last();
        lemma_calls_started(before, choice.delta.tool_calls@);
        let text = text_events(choice.delta.content);
        lemma_started_split(text, calls_mapped(before, choice.delta.tool_calls@).1);
        reveal_with_fuel(started, 2);
        assert(started(text) =~= Multiset::empty());
        lemma_started_split(told, choice_mapped(before, choice).1);
    }
    assert(open_ids(choices_mapped(m, choices).0.open_tools) =~= open_ids(m.open_tools).add(
        started(choices_mapped(m, choices).1),
    ));
}

proof fn lemma_all_started(m: ChatMapperView, chunks: Seq<ChatStreamChunk>)
    requires
        valid(m),
    ensures
        valid(all_mapped(m, chunks).0),
        open_ids(all_mapped(m, chunks).0.open_tools) == open_ids(m.open_tools).add(
            started(all_mapped(m, chunks).1),
        ),
        all_mapped(m, chunks).0.finished == m.finished,
    decreases chunks.len(),
{
    if chunks.len() > 0 {
        lemma_all_started(m, chunks.drop_last());
        let (before, told) = all_mapped(m, chunks.drop_last());
        let chunk = chunks.last();
        let counted = match chunk.usage {
            Some(u) => ChatMapperView {
                usage: larger_usage(models::spec_usage(chat::wire_usage(u)), before.usage),
                ..before
            },
            None => before,
        };
        lemma_choices_started(counted, chunk.choices@);
        lemma_choices_finished(counted, chunk.choices@);
        lemma_started_split(told, mapped(before, chunk).1);
    }
    assert(open_ids(all_mapped(m, chunks).0.open_tools) =~= open_ids(m.open_tools).add(
        started(all_mapped(m, chunks).1),
    ));
}

proof fn lemma_calls_finished(m: ChatMapperView, calls: Seq<ChatStreamToolCall>)
    ensures
        calls_mapped(m, calls).0.finished == m.finished,
    decreases calls.len(),
{
    if calls.len() > 0 {
        lemma_calls_finished(m, calls.drop_last());
    }
}

proof fn lemma_choices_finished(m: ChatMapperView, choices: Seq<ChatStreamChoice>)
    ensures
        choices_mapped(m, choices).0.finished == m.finished,
    decreases choices.len(),
{
    if choices.len() > 0 {
        lemma_choices_finished(m, choices.drop_last());
        lemma_calls_finished(
            choices_mapped(m, choices.drop_last()).0,
            choices.last().delta.tool_calls@,
        );
    }
}

proof fn lemma_ends(open: Seq<(u32, Seq<char>)>)
    ensures
        ended(
            open.map_values(
                |p: (u32, Seq<char>)| ModelEventView::ToolCallEnd { id: p.1, arguments: None },
            ),
        ) == open_ids(open),
    decreases open.len(),
{
    broadcast use vstd::seq_lib::group_to_multiset_ensures;

    let f = |p: (u32, Seq<char>)| ModelEventView::ToolCallEnd { id: p.1, arguments: None };
    let g = |p: (u32, Seq<char>)| p.1;
    if open.len() > 0 {
        lemma_ends(open.drop_last());
        assert(open.map_values(f).drop_last() =~= open.drop_last().map_values(f));
        assert(open.map_values(g) =~= open.drop_last().map_values(g).push(open.last().1));
    } else {
        assert(open.map_values(g) =~= Seq::<Seq<char>>::empty());
    }
    assert(ended(open.map_values(f)) =~= open_ids(open));
}

/// Every tool call that a stream starts is ended, once: the end of the stream ends just the calls
/// that the chunks started.
pub proof fn law_every_start_is_ended(chunks: Seq<ChatStreamChunk>)
    ensures
        ({
            let (m, told) = all_mapped(new_mapper(), chunks);
            ended(flushed(m).1) == started(told)
        }),
{
    let (m, told) = all_mapped(new_mapper(), chunks);
    lemma_all_started(new_mapper(), chunks);
    assert(new_mapper().open_tools.map_values(|p: (u32, Seq<char>)| p.1) =~= Seq::<Seq<char>>::empty());
    assert(open_ids(new_mapper().open_tools) =~= Multiset::empty()) by {
        broadcast use vstd::seq_lib::group_to_multiset_ensures;

    }
    lemma_ends(m.open_tools);
    let events = flushed(m).1;
    assert(events.drop_last() =~= m.open_tools.map_values(
        |p: (u32, Seq<char>)| ModelEventView::ToolCallEnd { id: p.1, arguments: None },
    ));
    assert(ended(events) == open_ids(m.open_tools));
    assert(ended(events) =~= started(told));
}

} // verus!
