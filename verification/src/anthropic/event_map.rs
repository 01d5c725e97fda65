//! From the events of the Messages API to model events.
//!
//! The API streams content in indexed blocks: one event opens a block, others carry fragments of
//! it, and one closes it. Model events are flat, so the mapper keeps track of what kind of block
//! stands at each index.

use crate::anthropic::models::{StreamContentBlock, StreamDelta, StreamEvent, StreamUsage};
use crate::agent::event;
use crate::key_map;
use crate::key_map::KeyMap;
use crate::language_model::event::{
    no_events, one_event, FinishReason, LanguageModelEvent, ModelEventView, Usage,
};
use crate::text::{concat3, same_text};
use vstd::prelude::*;
use vstd::string::*;

verus! {

/// The kind of an open block.
#[derive(Debug, PartialEq, Eq)]
pub enum BlockKind {
    /// Assistant text.
    Text,
    /// A tool call.
    ToolUse {
        /// The call's identifier.
        id: String,
    },
    /// Reasoning.
    Thinking,
}

/// Model of the kind of an open block.
#[verifier::ext_equal]
pub enum BlockKindView {
    Text,
    ToolUse { id: Seq<char> },
    Thinking,
}

impl View for BlockKind {
    type V = BlockKindView;

    open spec fn view(&self) -> BlockKindView {
        match *self {
            BlockKind::Text => BlockKindView::Text,
            BlockKind::ToolUse { id } => BlockKindView::ToolUse { id: id@ },
            BlockKind::Thinking => BlockKindView::Thinking,
        }
    }
}

/// The mapper: the open blocks, and what is known of the message as a whole.
#[derive(Debug, PartialEq, Eq)]
pub struct EventMapper {
    blocks: KeyMap<u32, BlockKind>,
    usage: Usage,
    stop_reason: Option<String>,
    finished: bool,
}

/// Model of the mapper.
#[verifier::ext_equal]
pub struct MapperView {
    pub blocks: Seq<(u32, BlockKindView)>,
    pub usage: Usage,
    pub stop_reason: Option<Seq<char>>,
    pub finished: bool,
}

impl View for EventMapper {
    type V = MapperView;

    closed spec fn view(&self) -> MapperView {
        MapperView {
            blocks: self.blocks@,
            usage: self.usage,
            stop_reason: self.stop_reason.deep_view(),
            finished: self.finished,
        }
    }
}

impl DeepView for EventMapper {
    type V = MapperView;

    open spec fn deep_view(&self) -> MapperView {
        self@
    }
}

/// A mapper that has seen nothing.
pub open spec fn new_mapper() -> MapperView {
    MapperView {
        blocks: Seq::empty(),
        usage: crate::language_model::event::no_usage(),
        stop_reason: None,
        finished: false,
    }
}

/// The larger of two counts.
pub open spec fn larger(a: u32, b: u32) -> u32 {
    if a >= b {
        a
    } else {
        b
    }
}

/// The usage after one more report: the provider reports running totals, so the larger count holds.
pub open spec fn merged_usage(u: Usage, more: StreamUsage) -> Usage {
    Usage {
        input_tokens: larger(u.input_tokens, more.input_tokens),
        output_tokens: larger(u.output_tokens, more.output_tokens),
        cached_input_tokens: larger(
            u.cached_input_tokens,
            event::capped_sum(more.cache_read_input_tokens, more.cache_creation_input_tokens),
        ),
    }
}

/// The mapper after a report of usage, if there was one.
pub open spec fn with_usage(m: MapperView, usage: Option<StreamUsage>) -> MapperView {
    match usage {
        Some(u) => MapperView { usage: merged_usage(m.usage, u), ..m },
        None => m,
    }
}

/// The mapper with a block opened.
pub open spec fn with_block(m: MapperView, index: u32, kind: BlockKindView) -> MapperView {
    MapperView { blocks: key_map::put::<u32, BlockKindView>(m.blocks, index, kind), ..m }
}

/// Why the provider stopped, by its own word for it.
pub open spec fn stop_reason_of(s: Option<Seq<char>>) -> FinishReason {
    match s {
        None => FinishReason::Stop,
        Some(s) => if s == "end_turn"@ || s == "stop_sequence"@ {
            FinishReason::Stop
        } else if s == "max_tokens"@ {
            FinishReason::Length
        } else if s == "tool_use"@ {
            FinishReason::ToolUse
        } else if s == "refusal"@ {
            FinishReason::ContentFilter
        } else {
            FinishReason::Other
        },
    }
}

/// What the start of a block gives: the block is open then, and text that came with it is told.
pub open spec fn block_started(m: MapperView, index: u32, block: StreamContentBlock) -> (
    MapperView,
    Seq<ModelEventView>,
) {
    match block {
        StreamContentBlock::Text { text } => (
            with_block(m, index, BlockKindView::Text),
            if text@.len() == 0 {
                Seq::empty()
            } else {
                seq![ModelEventView::TextDelta { delta: text@ }]
            },
        ),
        StreamContentBlock::ToolUse { id, name, input } => (
            with_block(m, index, BlockKindView::ToolUse { id: id@ }),
            seq![ModelEventView::ToolCallStart { id: id@, name: name@ }],
        ),
        StreamContentBlock::Thinking { thinking } => (
            with_block(m, index, BlockKindView::Thinking),
            if thinking@.len() == 0 {
                Seq::empty()
            } else {
                seq![ModelEventView::ReasoningDelta { delta: thinking@ }]
            },
        ),
        StreamContentBlock::Other => (m, Seq::empty()),
    }
}

/// What a fragment gives: it counts only where it suits the kind of its block.
pub open spec fn delta_events(m: MapperView, index: u32, delta: StreamDelta) -> Seq<ModelEventView> {
    match (key_map::get(m.blocks, index), delta) {
        (Some(BlockKindView::Text), StreamDelta::TextDelta { text }) => seq![
            ModelEventView::TextDelta { delta: text@ },
        ],
        (Some(BlockKindView::ToolUse { id }), StreamDelta::InputJsonDelta { partial_json }) => seq![
            ModelEventView::ToolCallDelta { id, arguments_delta: partial_json@ },
        ],
        (Some(BlockKindView::Thinking), StreamDelta::ThinkingDelta { thinking }) => seq![
            ModelEventView::ReasoningDelta { delta: thinking@ },
        ],
        (Some(BlockKindView::Thinking), StreamDelta::SignatureDelta { signature }) => seq![
            ModelEventView::ReasoningSignature { signature: signature@ },
        ],
        _ => Seq::empty(),
    }
}

/// The mapper after an event of the stream, and the model events that it means.
pub open spec fn mapped(m: MapperView, ev: StreamEvent) -> (MapperView, Seq<ModelEventView>) {
    match ev {
        StreamEvent::MessageStart { message } => (with_usage(m, message.usage), Seq::empty()),
        StreamEvent::ContentBlockStart { index, content_block } => block_started(
            m,
            index,
            content_block,
        ),
        StreamEvent::ContentBlockDelta { index, delta } => (m, delta_events(m, index, delta)),
        StreamEvent::ContentBlockStop { index } => (
            MapperView { blocks: key_map::without(m.blocks, index), ..m },
            match key_map::get(m.blocks, index) {
                Some(BlockKindView::ToolUse { id }) => seq![
                    ModelEventView::ToolCallEnd { id, arguments: None },
                ],
                _ => Seq::empty(),
            },
        ),
        StreamEvent::MessageDelta { delta, usage } => (
            with_usage(
                MapperView {
                    stop_reason: match delta.stop_reason {
                        Some(reason) => Some(reason@),
                        None => m.stop_reason,
                    },
                    ..m
                },
                usage,
            ),
            Seq::empty(),
        ),
        StreamEvent::MessageStop => (
            MapperView { finished: true, ..m },
            seq![
                ModelEventView::Finish { reason: stop_reason_of(m.stop_reason), usage: m.usage },
            ],
        ),
        StreamEvent::Ping => (m, Seq::empty()),
        StreamEvent::Other => (m, Seq::empty()),
        StreamEvent::Error { error } => (
            MapperView { finished: true, ..m },
            seq![ModelEventView::Error { message: error.kind@ + ": "@ + error.message@ }],
        ),
    }
}

/// The mapper at the end of the stream, and what the end means: an end that the provider did not
/// tell is told, once, with what the message cost so far.
pub open spec fn flushed(m: MapperView) -> (MapperView, Seq<ModelEventView>) {
    if m.finished {
        (m, Seq::empty())
    } else {
        (
            MapperView { finished: true, ..m },
            seq![ModelEventView::Finish { reason: FinishReason::Other, usage: m.usage }],
        )
    }
}

/// Why the provider stopped, by its own word for it.
pub fn map_stop_reason(s: Option<&str>) -> (r: FinishReason)
    ensures
        r == stop_reason_of(s.deep_view()),
{
    match s {
        None => FinishReason::Stop,
        Some(s) => if same_text(s, "end_turn") || same_text(s, "stop_sequence") {
            FinishReason::Stop
        } else if same_text(s, "max_tokens") {
            FinishReason::Length
        } else if same_text(s, "tool_use") {
            FinishReason::ToolUse
        } else if same_text(s, "refusal") {
            FinishReason::ContentFilter
        } else {
            FinishReason::Other
        },
    }
}

impl EventMapper {
    /// A mapper that has seen nothing.
    pub fn new() -> (r: Self)
        ensures
            r@ == new_mapper(),
    {
        EventMapper {
            blocks: KeyMap::new(),
            usage: Usage { input_tokens: 0, output_tokens: 0, cached_input_tokens: 0 },
            stop_reason: None,
            finished: false,
        }
    }

    /// Takes in a report of usage.
    pub fn merge_usage(&mut self, u: &StreamUsage)
        ensures
            final(self)@ == (MapperView { usage: merged_usage(old(self)@.usage, *u), ..old(self)@ }),
    {
        let cached = u.cache_read_input_tokens.saturating_add(u.cache_creation_input_tokens);
        if u.input_tokens > self.usage.input_tokens {
            self.usage.input_tokens = u.input_tokens;
        }
        if u.output_tokens > self.usage.output_tokens {
            self.usage.output_tokens = u.output_tokens;
        }
        if cached > self.usage.cached_input_tokens {
            self.usage.cached_input_tokens = cached;
        }
    }

    fn start_block(&mut self, index: u32, block: StreamContentBlock) -> (r: Vec<LanguageModelEvent>)
        ensures
            (final(self)@, r.deep_view()) == block_started(old(self)@, index, block),
    {
        match block {
            StreamContentBlock::Text { text } => {
                self.blocks.insert(index, BlockKind::Text);
                if text.as_str().is_empty() {
                    no_events()
                } else {
                    one_event(LanguageModelEvent::TextDelta { delta: text })
                }
            },
            StreamContentBlock::ToolUse { id, name, .. } => {
                self.blocks.insert(index, BlockKind::ToolUse { id: id.clone() });
                one_event(LanguageModelEvent::ToolCallStart { id, name })
            },
            StreamContentBlock::Thinking { thinking } => {
                self.blocks.insert(index, BlockKind::Thinking);
                if thinking.as_str().is_empty() {
                    no_events()
                } else {
                    one_event(LanguageModelEvent::ReasoningDelta { delta: thinking })
                }
            },
            StreamContentBlock::Other => no_events(),
        }
    }

    fn take_delta(&self, index: u32, delta: StreamDelta) -> (r: Vec<LanguageModelEvent>)
        ensures
            r.deep_view() == delta_events(self@, index, delta),
    {
        match (self.blocks.get(&index), delta) {
            (Some(BlockKind::Text), StreamDelta::TextDelta { text }) => one_event(
                LanguageModelEvent::TextDelta { delta: text },
            ),
            (Some(BlockKind::ToolUse { id }), StreamDelta::InputJsonDelta { partial_json }) => one_event(
                LanguageModelEvent::ToolCallDelta { id: id.clone(), arguments_delta: partial_json },
            ),
            (Some(BlockKind::Thinking), StreamDelta::ThinkingDelta { thinking }) => one_event(
                LanguageModelEvent::ReasoningDelta { delta: thinking },
            ),
            (Some(BlockKind::Thinking), StreamDelta::SignatureDelta { signature }) => one_event(
                LanguageModelEvent::ReasoningSignature { signature },
            ),
            _ => no_events(),
        }
    }

    /// Takes in an event of the stream, and gives the model events that it means.
    pub fn map(&mut self, ev: StreamEvent) -> (r: Vec<LanguageModelEvent>)
        ensures
            (final(self)@, r.deep_view()) == mapped(old(self)@, ev),
    {
        match ev {
            StreamEvent::MessageStart { message } => {
                match &message.usage {
                    Some(u) => {
                        self.merge_usage(u);
                    },
                    None => {},
                }
                no_events()
            },
            StreamEvent::ContentBlockStart { index, content_block } => self.start_block(
                index,
                content_block,
            ),
            StreamEvent::ContentBlockDelta { index, delta } => self.take_delta(index, delta),
            StreamEvent::ContentBlockStop { index } => match self.blocks.remove(&index) {
                Some(BlockKind::ToolUse { id }) => one_event(
                    LanguageModelEvent::ToolCallEnd { id, arguments: None },
                ),
                _ => no_events(),
            },
            StreamEvent::MessageDelta { delta, usage } => {
                match delta.stop_reason {
                    Some(reason) => {
                        self.stop_reason = Some(reason);
                    },
                    None => {},
                }
                match &usage {
                    Some(u) => {
                        self.merge_usage(u);
                    },
                    None => {},
                }
                no_events()
            },
            StreamEvent::MessageStop => {
                self.finished = true;
                let reason = match &self.stop_reason {
                    Some(s) => map_stop_reason(Some(s.as_str())),
                    None => map_stop_reason(None),
                };
                one_event(LanguageModelEvent::Finish { reason, usage: self.usage })
            },
            StreamEvent::Ping => no_events(),
            StreamEvent::Other => no_events(),
            StreamEvent::Error { error } => {
                self.finished = true;
                one_event(
                    LanguageModelEvent::Error {
                        message: concat3(error.kind.as_str(), ": ", error.message.as_str()),
                    },
                )
            },
        }
    }

    /// Tells the end of the stream, once the bytes have ended, where the provider did not.
    pub fn flush(&mut self) -> (r: Vec<LanguageModelEvent>)
        ensures
            (final(self)@, r.deep_view()) == flushed(old(self)@),
    {
        if self.finished {
            return no_events();
        }
        self.finished = true;
        one_event(LanguageModelEvent::Finish { reason: FinishReason::Other, usage: self.usage })
    }
}

/// The end of the stream is told once: by the provider, or in its place; and it stays told,
/// whatever the provider still sends.
pub proof fn law_one_finish(m: MapperView, ev: StreamEvent)
    ensures
        flushed(flushed(m).0) == (flushed(m).0, Seq::<ModelEventView>::empty()),
        ev is MessageStop || ev is Error ==> flushed(mapped(m, ev).0).1
            == Seq::<ModelEventView>::empty(),
        m.finished ==> mapped(m, ev).0.finished,
{
}

/// A tool call goes by one identifier from its start to its end, and the end closes its block.
pub proof fn law_call_keeps_its_id(
    m: MapperView,
    index: u32,
    id: String,
    name: String,
    input: crate::json::Json,
    partial_json: String,
)
    requires
        key_map::in_order::<u32, BlockKindView>(m.blocks),
    ensures
        ({
            let (open, start) = block_started(
                m,
                index,
                StreamContentBlock::ToolUse { id, name, input },
            );
            let more = delta_events(open, index, StreamDelta::InputJsonDelta { partial_json });
            let (closed, end) = mapped(open, StreamEvent::ContentBlockStop { index });
            &&& start == seq![ModelEventView::ToolCallStart { id: id@, name: name@ }]
            &&& more == seq![
                ModelEventView::ToolCallDelta { id: id@, arguments_delta: partial_json@ },
            ]
            &&& end == seq![ModelEventView::ToolCallEnd { id: id@, arguments: None }]
            &&& key_map::get(closed.blocks, index) is None
        }),
{
    let kind = BlockKindView::ToolUse { id: id@ };
    key_map::law_put_get::<u32, BlockKindView>(m.blocks, index, kind, index);
    key_map::law_put_in_order::<u32, BlockKindView>(m.blocks, index, kind);
    key_map::law_without_get::<u32, BlockKindView>(
        key_map::put::<u32, BlockKindView>(m.blocks, index, kind),
        index,
        index,
    );
}

/// The counts never fall: a report with less in it changes nothing.
pub proof fn law_usage_never_falls(u: Usage, more: StreamUsage)
    ensures
        merged_usage(u, more).input_tokens >= u.input_tokens,
        merged_usage(u, more).output_tokens >= u.output_tokens,
        merged_usage(u, more).cached_input_tokens >= u.cached_input_tokens,
        merged_usage(merged_usage(u, more), more) == merged_usage(u, more),
{
}

} // verus!
