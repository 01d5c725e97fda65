//! From the events of the Responses API to model events.
//!
//! The API streams items, each of a kind, and fragments of them. The mapper keeps track of the
//! items, so that fragments and ends are told under the right identifiers.

use crate::json;
use crate::json::{Json, JsonView};
use crate::key_map;
use crate::key_map::KeyMap;
use crate::language_model::event::{
    no_events, one_event, FinishReason, LanguageModelEvent, ModelEventView, Usage,
};
use crate::openai::responses::{
    CompletedResponse, ResponsesError, ResponsesEvent, ResponsesOutputItem, ResponsesUsage,
};
use crate::text::{concat3, same_text};
use vstd::prelude::*;
use vstd::string::*;

verus! {

/// The kind of an item.
#[derive(Debug, PartialEq, Eq)]
pub enum ItemKind {
    /// A message.
    Message,
    /// A tool call.
    FunctionCall {
        /// The call's identifier.
        call_id: String,
    },
    /// Reasoning.
    Reasoning,
    /// Anything else.
    Other,
}

/// Model of the kind of an item.
#[verifier::ext_equal]
pub enum ItemKindView {
    Message,
    FunctionCall { call_id: Seq<char> },
    Reasoning,
    Other,
}

impl View for ItemKind {
    type V = ItemKindView;

    open spec fn view(&self) -> ItemKindView {
        match *self {
            ItemKind::Message => ItemKindView::Message,
            ItemKind::FunctionCall { call_id } => ItemKindView::FunctionCall { call_id: call_id@ },
            ItemKind::Reasoning => ItemKindView::Reasoning,
            ItemKind::Other => ItemKindView::Other,
        }
    }
}

/// The mapper: the items that have begun, by identifier, and what is known of the end.
#[derive(Debug, PartialEq, Eq)]
pub struct ResponsesEventMapper {
    items: KeyMap<String, ItemKind>,
    had_function_call: bool,
    finished: bool,
}

/// Model of the mapper.
#[verifier::ext_equal]
pub struct ResponsesMapperView {
    pub items: Seq<(Seq<char>, ItemKindView)>,
    pub had_function_call: bool,
    pub finished: bool,
}

impl View for ResponsesEventMapper {
    type V = ResponsesMapperView;

    closed spec fn view(&self) -> ResponsesMapperView {
        ResponsesMapperView {
            items: self.items@,
            had_function_call: self.had_function_call,
            finished: self.finished,
        }
    }
}

impl DeepView for ResponsesEventMapper {
    type V = ResponsesMapperView;

    open spec fn deep_view(&self) -> ResponsesMapperView {
        self@
    }
}

/// A mapper that has seen nothing.
pub open spec fn new_mapper() -> ResponsesMapperView {
    ResponsesMapperView { items: Seq::empty(), had_function_call: false, finished: false }
}

/// The mapper with an item begun.
pub open spec fn with_item(m: ResponsesMapperView, id: Seq<char>, kind: ItemKindView) -> ResponsesMapperView {
    ResponsesMapperView { items: key_map::put::<String, ItemKindView>(m.items, id, kind), ..m }
}

/// An item has begun. A tool call is told under its call identifier, or under that of the item
/// where it has none; an item without identifier is dropped.
pub open spec fn item_added(m: ResponsesMapperView, item: ResponsesOutputItem) -> (
    ResponsesMapperView,
    Seq<ModelEventView>,
) {
    match item.id {
        None => (m, Seq::empty()),
        Some(id) => if item.kind@ == "message"@ {
            (with_item(m, id@, ItemKindView::Message), Seq::empty())
        } else if item.kind@ == "function_call"@ {
            let call_id = match item.call_id {
                Some(c) => c@,
                None => id@,
            };
            let name = match item.name {
                Some(n) => n@,
                None => Seq::empty(),
            };
            (
                ResponsesMapperView {
                    had_function_call: true,
                    ..with_item(m, id@, ItemKindView::FunctionCall { call_id })
                },
                seq![ModelEventView::ToolCallStart { id: call_id, name }],
            )
        } else if item.kind@ == "reasoning"@ {
            (with_item(m, id@, ItemKindView::Reasoning), Seq::empty())
        } else {
            (with_item(m, id@, ItemKindView::Other), Seq::empty())
        },
    }
}

/// An item is done, its arguments having been read as given: the end of a tool call is told, with
/// its arguments where they could be read.
pub open spec fn item_done(
    m: ResponsesMapperView,
    item: ResponsesOutputItem,
    arguments: Option<JsonView>,
) -> (ResponsesMapperView, Seq<ModelEventView>) {
    match item.id {
        None => (m, Seq::empty()),
        Some(id) => (
            ResponsesMapperView { items: key_map::without(m.items, id@), ..m },
            match key_map::get(m.items, id@) {
                Some(ItemKindView::FunctionCall { call_id }) => seq![
                    ModelEventView::ToolCallEnd { id: call_id, arguments },
                ],
                _ => Seq::empty(),
            },
        ),
    }
}

/// The arguments of an item, where they are there and are JSON.
pub open spec fn item_arguments(item: ResponsesOutputItem) -> Option<JsonView> {
    match item.arguments {
        None => None,
        Some(s) => match json::json_value(s@) {
            Ok(j) => Some(j),
            Err(_) => None,
        },
    }
}

/// The token counts of a response.
pub open spec fn response_usage(u: Option<ResponsesUsage>) -> Usage {
    match u {
        None => crate::language_model::event::no_usage(),
        Some(u) => Usage {
            input_tokens: u.input_tokens,
            output_tokens: u.output_tokens,
            cached_input_tokens: match u.input_tokens_details {
                Some(d) => d.cached_tokens,
                None => 0,
            },
        },
    }
}

/// What it means that a response is not whole.
pub open spec fn incomplete_reason(reason: Seq<char>) -> FinishReason {
    if reason == "max_output_tokens"@ {
        FinishReason::Length
    } else if reason == "content_filter"@ {
        FinishReason::ContentFilter
    } else {
        FinishReason::Other
    }
}

/// Why a response ended.
pub open spec fn completed_reason(m: ResponsesMapperView, response: CompletedResponse) -> FinishReason {
    match response.incomplete_details {
        Some(d) => incomplete_reason(d.reason@),
        None => if response.status matches Some(s) && s@ == "incomplete"@ {
            FinishReason::Length
        } else if m.had_function_call {
            FinishReason::ToolUse
        } else {
            FinishReason::Stop
        },
    }
}

/// The text of an error that the provider reports.
pub open spec fn failure_text(error: ResponsesError) -> Seq<char> {
    match error.code {
        Some(code) => code@ + ": "@ + error.message@,
        None => error.message@,
    }
}

/// The mapper after an event, and the model events that it means, the arguments of an item that is
/// done having been read as given.
pub open spec fn mapped_with(
    m: ResponsesMapperView,
    ev: ResponsesEvent,
    arguments: Option<JsonView>,
) -> (ResponsesMapperView, Seq<ModelEventView>) {
    match ev {
        ResponsesEvent::OutputItemAdded(e) => item_added(m, e.item),
        ResponsesEvent::OutputTextDelta(e) => (
            m,
            if e.delta@.len() == 0 {
                Seq::empty()
            } else {
                seq![ModelEventView::TextDelta { delta: e.delta@ }]
            },
        ),
        ResponsesEvent::FunctionCallArgsDelta(e) => (
            m,
            match key_map::get(m.items, e.item_id@) {
                Some(ItemKindView::FunctionCall { call_id }) => seq![
                    ModelEventView::ToolCallDelta { id: call_id, arguments_delta: e.delta@ },
                ],
                _ => Seq::empty(),
            },
        ),
        ResponsesEvent::ReasoningSummaryDelta(e) => (
            m,
            if e.delta@.len() == 0 {
                Seq::empty()
            } else {
                seq![ModelEventView::ReasoningDelta { delta: e.delta@ }]
            },
        ),
        ResponsesEvent::OutputItemDone(e) => item_done(m, e.item, arguments),
        ResponsesEvent::Completed(e) => (
            ResponsesMapperView { finished: true, ..m },
            seq![
                ModelEventView::Finish {
                    reason: completed_reason(m, e.response),
                    usage: response_usage(e.response.usage),
                },
            ],
        ),
        ResponsesEvent::Failed(e) => (
            ResponsesMapperView { finished: true, ..m },
            seq![ModelEventView::Error { message: failure_text(e.response.error) }],
        ),
        ResponsesEvent::Ignored => (m, Seq::empty()),
    }
}

/// The arguments that an event carries, where it tells of an item that is done.
pub open spec fn event_arguments(ev: ResponsesEvent) -> Option<JsonView> {
    match ev {
        ResponsesEvent::OutputItemDone(e) => item_arguments(e.item),
        _ => None,
    }
}

/// The mapper after an event, and the model events that it means.
pub open spec fn mapped(m: ResponsesMapperView, ev: ResponsesEvent) -> (
    ResponsesMapperView,
    Seq<ModelEventView>,
) {
    mapped_with(m, ev, event_arguments(ev))
}

/// The mapper at the end of the stream, and what the end means: an end that the provider did not
/// tell is told, once.
pub open spec fn flushed(m: ResponsesMapperView) -> (ResponsesMapperView, Seq<ModelEventView>) {
    if m.finished {
        (m, Seq::empty())
    } else {
        (
            ResponsesMapperView { finished: true, ..m },
            seq![
                ModelEventView::Finish {
                    reason: FinishReason::Other,
                    usage: crate::language_model::event::no_usage(),
                },
            ],
        )
    }
}

/// What it means that a response is not whole.
pub fn map_incomplete(reason: &str) -> (r: FinishReason)
    ensures
        r == incomplete_reason(reason@),
{
    if same_text(reason, "max_output_tokens") {
        FinishReason::Length
    } else if same_text(reason, "content_filter") {
        FinishReason::ContentFilter
    } else {
        FinishReason::Other
    }
}

fn usage_of(u: &Option<ResponsesUsage>) -> (r: Usage)
    ensures
        r == response_usage(*u),
{
    match u {
        None => Usage { input_tokens: 0, output_tokens: 0, cached_input_tokens: 0 },
        Some(u) => Usage {
            input_tokens: u.input_tokens,
            output_tokens: u.output_tokens,
            cached_input_tokens: match &u.input_tokens_details {
                Some(d) => d.cached_tokens,
                None => 0,
            },
        },
    }
}

impl ResponsesEventMapper {
    /// A mapper that has seen nothing.
    pub fn new() -> (r: Self)
        ensures
            r@ == new_mapper(),
    {
        ResponsesEventMapper { items: KeyMap::new(), had_function_call: false, finished: false }
    }

    fn add_item(&mut self, item: ResponsesOutputItem) -> (r: Vec<LanguageModelEvent>)
        ensures
            (final(self)@, r.deep_view()) == item_added(old(self)@, item),
    {
        let id = match item.id {
            Some(id) => id,
            None => {
                return no_events();
            },
        };
        if same_text(item.kind.as_str(), "message") {
            self.items.insert(id, ItemKind::Message);
            no_events()
        } else if same_text(item.kind.as_str(), "function_call") {
            let call_id = match item.call_id {
                Some(c) => c,
                None => id.clone(),
            };
            let name = match item.name {
                Some(n) => n,
                None => String::new(),
            };
            self.items.insert(id, ItemKind::FunctionCall { call_id: call_id.clone() });
            self.had_function_call = true;
            one_event(LanguageModelEvent::ToolCallStart { id: call_id, name })
        } else if same_text(item.kind.as_str(), "reasoning") {
            self.items.insert(id, ItemKind::Reasoning);
            no_events()
        } else {
            self.items.insert(id, ItemKind::Other);
            no_events()
        }
    }

    fn finish_item(&mut self, item: ResponsesOutputItem, arguments: Option<Json>) -> (r: Vec<
        LanguageModelEvent,
    >)
        ensures
            (final(self)@, r.deep_view()) == item_done(old(self)@, item, arguments.deep_view()),
    {
        let id = match item.id {
            Some(id) => id,
            None => {
                return no_events();
            },
        };
        match self.items.remove(&id) {
            Some(ItemKind::FunctionCall { call_id }) => one_event(
                LanguageModelEvent::ToolCallEnd { id: call_id, arguments },
            ),
            _ => no_events(),
        }
    }

    fn complete(&mut self, response: CompletedResponse) -> (r: LanguageModelEvent)
        ensures
            final(self)@ == (ResponsesMapperView { finished: true, ..old(self)@ }),
            r@ == (ModelEventView::Finish {
                reason: completed_reason(old(self)@, response),
                usage: response_usage(response.usage),
            }),
    {
        self.finished = true;
        let usage = usage_of(&response.usage);
        let incomplete = match &response.status {
            Some(s) => same_text(s.as_str(), "incomplete"),
            None => false,
        };
        let reason = match &response.incomplete_details {
            Some(d) => map_incomplete(d.reason.as_str()),
            None => if incomplete {
                FinishReason::Length
            } else if self.had_function_call {
                FinishReason::ToolUse
            } else {
                FinishReason::Stop
            },
        };
        LanguageModelEvent::Finish { reason, usage }
    }

    /// Takes in an event, the arguments of an item that is done having been read as given, and gives
    /// the model events that it means.
    pub fn map_with(&mut self, ev: ResponsesEvent, arguments: Option<Json>) -> (r: Vec<
        LanguageModelEvent,
    >)
        ensures
            (final(self)@, r.deep_view()) == mapped_with(old(self)@, ev, arguments.deep_view()),
    {
        match ev {
            ResponsesEvent::OutputItemAdded(e) => self.add_item(e.item),
            ResponsesEvent::OutputTextDelta(e) => if e.delta.as_str().is_empty() {
                no_events()
            } else {
                one_event(LanguageModelEvent::TextDelta { delta: e.delta })
            },
            ResponsesEvent::FunctionCallArgsDelta(e) => match self.items.get(&e.item_id) {
                Some(ItemKind::FunctionCall { call_id }) => one_event(
                    LanguageModelEvent::ToolCallDelta {
                        id: call_id.clone(),
                        arguments_delta: e.delta,
                    },
                ),
                _ => no_events(),
            },
            ResponsesEvent::ReasoningSummaryDelta(e) => if e.delta.as_str().is_empty() {
                no_events()
            } else {
                one_event(LanguageModelEvent::ReasoningDelta { delta: e.delta })
            },
            ResponsesEvent::OutputItemDone(e) => self.finish_item(e.item, arguments),
            ResponsesEvent::Completed(e) => one_event(self.complete(e.response)),
            ResponsesEvent::Failed(e) => {
                self.finished = true;
                let error = e.response.error;
                let message = match &error.code {
                    Some(code) => concat3(code.as_str(), ": ", error.message.as_str()),
                    None => error.message,
                };
                one_event(LanguageModelEvent::Error { message })
            },
            ResponsesEvent::Ignored => no_events(),
        }
    }

    /// Takes in an event, and gives the model events that it means.
    pub fn map(&mut self, ev: ResponsesEvent) -> (r: Vec<LanguageModelEvent>)
        ensures
            (final(self)@, r.deep_view()) == mapped(old(self)@, ev),
    {
        let arguments: Option<Json> = match &ev {
            ResponsesEvent::OutputItemDone(e) => match &e.item.arguments {
                Some(s) => match Json::parse(s.as_str()) {
                    Ok(j) => Some(j),
                    Err(_) => None,
                },
                None => None,
            },
            _ => None,
        };
        self.map_with(ev, arguments)
    }

    /// Tells the end of the stream, once the bytes have ended, where the provider did not.
    pub fn flush(&mut self) -> (r: Vec<LanguageModelEvent>)
        ensures
            (final(self)@, r.deep_view()) == flushed(old(self)@),
    {
        if self.finished {
            return no_events();
        }
        self.finished = true;
        one_event(
            LanguageModelEvent::Finish {
                reason: FinishReason::Other,
                usage: Usage { input_tokens: 0, output_tokens: 0, cached_input_tokens: 0 },
            },
        )
    }
}

/// The end of the stream is told once: by the provider, or in its place; and it stays told,
/// whatever the provider still sends.
pub proof fn law_one_finish(m: ResponsesMapperView, ev: ResponsesEvent)
    ensures
        flushed(flushed(m).0) == (flushed(m).0, Seq::<ModelEventView>::empty()),
        ev is Completed || ev is Failed ==> flushed(mapped(m, ev).0).1
            == Seq::<ModelEventView>::empty(),
        m.finished ==> mapped(m, ev).0.finished,
        !(ev is Completed || ev is Failed) ==> mapped(m, ev).0.finished == m.finished,
{
}

/// A tool call goes by one identifier from its start to its end.
pub proof fn law_call_keeps_its_id(
    m: ResponsesMapperView,
    item: ResponsesOutputItem,
    delta: crate::openai::responses::FunctionCallArgsDelta,
    done: ResponsesOutputItem,
    arguments: Option<JsonView>,
)
    requires
        item.id is Some,
        item.kind@ == "function_call"@,
        delta.item_id@ == item.id->0@,
        done.id is Some,
        done.id->0@ == item.id->0@,
    ensures
        ({
            let (begun, start) = item_added(m, item);
            let more = mapped_with(begun, ResponsesEvent::FunctionCallArgsDelta(delta), None).1;
            let end = item_done(begun, done, arguments).1;
            let call_id = match item.call_id {
                Some(c) => c@,
                None => item.id->0@,
            };
            &&& start.len() == 1 && start[0] is ToolCallStart && start[0]->ToolCallStart_id == call_id
            &&& more == seq![
                ModelEventView::ToolCallDelta { id: call_id, arguments_delta: delta.delta@ },
            ]
            &&& end == seq![ModelEventView::ToolCallEnd { id: call_id, arguments }]
        }),
{
    let id = item.id->0@;
    let call_id = match item.call_id {
        Some(c) => c@,
        None => id,
    };
    reveal_strlit("message");
    reveal_strlit("function_call");
    assert("message"@.len() != "function_call"@.len());
    key_map::law_put_get::<String, ItemKindView>(
        m.items,
        id,
        ItemKindView::FunctionCall { call_id },
        id,
    );
}

} // verus!
