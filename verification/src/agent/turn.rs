//! One turn of the model: what its stream adds up to.

use crate::agent::error::{AgentError, AgentErrorView};
use crate::agent::event::{AgentEvent, AgentEventView};
use crate::json;
use crate::json::{Json, JsonView};
use crate::language_model::error::{ModelError, ModelErrorView};
use crate::language_model::event;
use crate::language_model::event::{FinishReason, LanguageModelEvent, ModelEventView, Usage};
use crate::language_model::message::{ContentBlock, ContentBlockView, Message, MessageView, Role};
use crate::model;
use crate::text;
use crate::text::{same_text, trim};
use vstd::prelude::*;
use vstd::string::*;

verus! {

/// A tool call while its turn is streamed.
#[derive(Debug, PartialEq, Eq)]
pub struct ToolUseAccum {
    /// The call's identifier.
    pub id: String,
    /// The tool's name.
    pub name: String,
    /// The fragments of the arguments so far.
    pub arg_buffer: String,
    /// The whole arguments, where the provider gave them.
    pub final_args: Option<Json>,
    /// The place of the call among the calls of the turn.
    pub order: u32,
    /// Whether the call's start was told.
    pub announced: bool,
}

/// Model of a tool call while its turn is streamed.
#[verifier::ext_equal]
pub struct AccumView {
    pub id: Seq<char>,
    pub name: Seq<char>,
    pub arg_buffer: Seq<char>,
    pub final_args: Option<JsonView>,
    pub order: u32,
    pub announced: bool,
}

impl View for ToolUseAccum {
    type V = AccumView;

    open spec fn view(&self) -> AccumView {
        AccumView {
            id: self.id@,
            name: self.name@,
            arg_buffer: self.arg_buffer@,
            final_args: self.final_args.deep_view(),
            order: self.order,
            announced: self.announced,
        }
    }
}

impl DeepView for ToolUseAccum {
    type V = AccumView;

    open spec fn deep_view(&self) -> AccumView {
        self@
    }
}

/// A tool call of a turn that is over.
#[derive(Debug, PartialEq, Eq)]
pub struct FinalToolUse {
    /// The call's identifier.
    pub id: String,
    /// The tool's name.
    pub name: String,
    /// The arguments.
    pub arguments: Json,
}

/// Model of a tool call of a turn that is over.
#[verifier::ext_equal]
pub struct ToolUseView {
    pub id: Seq<char>,
    pub name: Seq<char>,
    pub arguments: JsonView,
}

impl View for FinalToolUse {
    type V = ToolUseView;

    open spec fn view(&self) -> ToolUseView {
        ToolUseView { id: self.id@, name: self.name@, arguments: self.arguments@ }
    }
}

impl DeepView for FinalToolUse {
    type V = ToolUseView;

    open spec fn deep_view(&self) -> ToolUseView {
        self@
    }
}

impl Clone for FinalToolUse {
    fn clone(&self) -> (r: Self)
        ensures
            r@ == self@,
    {
        FinalToolUse {
            id: self.id.clone(),
            name: self.name.clone(),
            arguments: self.arguments.clone(),
        }
    }
}

/// What a turn came to.
#[derive(Debug, PartialEq, Eq)]
pub struct TurnOutcome {
    /// The assistant's message.
    pub assistant_message: Message,
    /// Why the provider stopped.
    pub finish_reason: FinishReason,
    /// What the turn cost.
    pub usage: Usage,
    /// The tool calls, in order.
    pub tool_uses: Vec<FinalToolUse>,
}

/// Model of what a turn came to.
#[verifier::ext_equal]
pub struct TurnOutcomeView {
    pub assistant_message: MessageView,
    pub finish_reason: FinishReason,
    pub usage: Usage,
    pub tool_uses: Seq<ToolUseView>,
}

impl View for TurnOutcome {
    type V = TurnOutcomeView;

    open spec fn view(&self) -> TurnOutcomeView {
        TurnOutcomeView {
            assistant_message: self.assistant_message@,
            finish_reason: self.finish_reason,
            usage: self.usage,
            tool_uses: self.tool_uses.deep_view(),
        }
    }
}

impl DeepView for TurnOutcome {
    type V = TurnOutcomeView;

    open spec fn deep_view(&self) -> TurnOutcomeView {
        self@
    }
}

/// A turn while it is streamed.
#[derive(Debug, PartialEq, Eq)]
pub struct TurnState {
    turn: u32,
    text_buf: String,
    reasoning_buf: String,
    reasoning_signature: Option<String>,
    tool_calls: Vec<ToolUseAccum>,
    next_order: u32,
    finish_reason: Option<FinishReason>,
    usage: Usage,
}

/// Model of a turn while it is streamed. The tool calls stand in the order in which their
/// identifiers came up.
#[verifier::ext_equal]
pub struct TurnView {
    pub turn: u32,
    pub text: Seq<char>,
    pub reasoning: Seq<char>,
    pub signature: Option<Seq<char>>,
    pub calls: Seq<AccumView>,
    pub next_order: u32,
    pub finish: Option<FinishReason>,
    pub usage: Usage,
}

impl View for TurnState {
    type V = TurnView;

    closed spec fn view(&self) -> TurnView {
        TurnView {
            turn: self.turn,
            text: self.text_buf@,
            reasoning: self.reasoning_buf@,
            signature: self.reasoning_signature.deep_view(),
            calls: self.tool_calls.deep_view(),
            next_order: self.next_order,
            finish: self.finish_reason,
            usage: self.usage,
        }
    }
}

impl DeepView for TurnState {
    type V = TurnView;

    open spec fn deep_view(&self) -> TurnView {
        self@
    }
}

/// A turn before its first event.
pub open spec fn new_turn(turn: u32) -> TurnView {
    TurnView {
        turn,
        text: Seq::empty(),
        reasoning: Seq::empty(),
        signature: None,
        calls: Seq::empty(),
        next_order: 0,
        finish: None,
        usage: event::no_usage(),
    }
}

/// A call of which only the identifier is known.
pub open spec fn blank_call(id: Seq<char>) -> AccumView {
    AccumView {
        id,
        name: Seq::empty(),
        arg_buffer: Seq::empty(),
        final_args: None,
        order: 0,
        announced: false,
    }
}

/// Where the call with an identifier stands, or the number of calls where there is none.
pub open spec fn call_index(calls: Seq<AccumView>, id: Seq<char>) -> int
    decreases calls.len(),
{
    if calls.len() == 0 {
        0
    } else if calls[0].id == id {
        0
    } else {
        1 + call_index(calls.drop_first(), id)
    }
}

/// The call with an identifier: the one that there is, or a blank one.
pub open spec fn call_of(calls: Seq<AccumView>, id: Seq<char>) -> AccumView {
    let i = call_index(calls, id);
    if i < calls.len() {
        calls[i]
    } else {
        blank_call(id)
    }
}

/// The calls with another call in the place of the one with an identifier, or at the end where
/// there is none.
pub open spec fn with_call(calls: Seq<AccumView>, id: Seq<char>, call: AccumView) -> Seq<AccumView> {
    let i = call_index(calls, id);
    if i < calls.len() {
        calls.update(i, call)
    } else {
        calls.push(call)
    }
}

/// A turn after one more event of the stream, and what is told of the event; or the error that the
/// event means.
pub open spec fn turn_step(t: TurnView, e: Result<ModelEventView, ModelErrorView>) -> Result<
    (TurnView, Option<AgentEventView>),
    AgentErrorView,
> {
    match e {
        Err(err) => Err(AgentErrorView::Provider(err)),
        Ok(ModelEventView::Error { message }) => Err(
            AgentErrorView::Provider(ModelErrorView::Other(message)),
        ),
        Ok(ModelEventView::TextDelta { delta }) => Ok(
            (
                TurnView { text: t.text + delta, ..t },
                Some(AgentEventView::TextDelta { turn: t.turn, delta }),
            ),
        ),
        Ok(ModelEventView::ReasoningDelta { delta }) => Ok(
            (
                TurnView { reasoning: t.reasoning + delta, ..t },
                Some(AgentEventView::ReasoningDelta { turn: t.turn, delta }),
            ),
        ),
        Ok(ModelEventView::ReasoningSignature { signature }) => Ok(
            (TurnView { signature: Some(signature), ..t }, None),
        ),
        Ok(ModelEventView::ToolCallStart { id, name }) => {
            let call = call_of(t.calls, id);
            if call.announced {
                Ok((t, None))
            } else {
                Ok(
                    (
                        TurnView {
                            calls: with_call(
                                t.calls,
                                id,
                                AccumView { name, order: t.next_order, announced: true, ..call },
                            ),
                            next_order: crate::agent::event::capped_sum(t.next_order, 1),
                            ..t
                        },
                        Some(AgentEventView::ToolCallStart { turn: t.turn, id, name }),
                    ),
                )
            }
        },
        Ok(ModelEventView::ToolCallDelta { id, arguments_delta }) => {
            let call = call_of(t.calls, id);
            Ok(
                (
                    TurnView {
                        calls: with_call(
                            t.calls,
                            id,
                            AccumView { arg_buffer: call.arg_buffer + arguments_delta, ..call },
                        ),
                        ..t
                    },
                    None,
                ),
            )
        },
        Ok(ModelEventView::ToolCallEnd { id, arguments }) => {
            let call = call_of(t.calls, id);
            Ok(
                (
                    TurnView {
                        calls: with_call(
                            t.calls,
                            id,
                            AccumView {
                                final_args: if arguments is Some {
                                    arguments
                                } else {
                                    call.final_args
                                },
                                ..call
                            },
                        ),
                        ..t
                    },
                    None,
                ),
            )
        },
        Ok(ModelEventView::Finish { reason, usage }) => Ok(
            (TurnView { finish: Some(reason), usage, ..t }, None),
        ),
    }
}

/// Calls in their order, with one more: behind every call whose place is not after its own.
pub open spec fn insert_call(sorted: Seq<AccumView>, call: AccumView) -> Seq<AccumView>
    decreases sorted.len(),
{
    if sorted.len() == 0 || sorted.last().order <= call.order {
        sorted.push(call)
    } else {
        insert_call(sorted.drop_last(), call).push(sorted.last())
    }
}

/// The calls by their places; calls with the same place stay as they stand.
pub open spec fn by_order(calls: Seq<AccumView>) -> Seq<AccumView>
    decreases calls.len(),
{
    if calls.len() == 0 {
        calls
    } else {
        insert_call(by_order(calls.drop_last()), calls.last())
    }
}

/// The arguments of a call, given what a JSON parser makes of the fragments: what the provider
/// gave as a whole, the empty object where there is nothing but white space, or what the parser
/// says.
pub open spec fn settled_args(
    call: AccumView,
    parsed: Result<JsonView, Seq<char>>,
) -> Result<JsonView, AgentErrorView> {
    match call.final_args {
        Some(j) => Ok(j),
        None => if text::trimmed(call.arg_buffer).len() == 0 {
            Ok(JsonView::Raw("{}"@))
        } else {
            match parsed {
                Ok(j) => Ok(j),
                Err(message) => Err(
                    AgentErrorView::InvalidToolArguments { name: call.name, message },
                ),
            }
        },
    }
}

/// The arguments of a call.
pub open spec fn call_args(call: AccumView) -> Result<JsonView, AgentErrorView> {
    settled_args(call, json::json_value(call.arg_buffer))
}

/// The first error, or the number of results where there is none.
pub open spec fn first_error(args: Seq<Result<JsonView, AgentErrorView>>) -> int
    decreases args.len(),
{
    if args.len() == 0 {
        0
    } else if args[0] is Err {
        0
    } else {
        1 + first_error(args.drop_first())
    }
}

/// The call with its arguments.
pub open spec fn tool_use(call: AccumView, args: JsonView) -> ToolUseView {
    ToolUseView { id: call.id, name: call.name, arguments: args }
}

/// What is told of a call that is complete.
pub open spec fn end_event(turn: u32, u: ToolUseView) -> AgentEventView {
    AgentEventView::ToolCallEnd { turn, id: u.id, name: u.name, arguments: u.arguments }
}

/// The calls with their arguments, up to the first that has none.
pub open spec fn complete_uses(
    calls: Seq<AccumView>,
    args: Seq<Result<JsonView, AgentErrorView>>,
) -> Seq<ToolUseView> {
    Seq::new(first_error(args) as nat, |i: int| tool_use(calls[i], args[i]->Ok_0))
}

/// The block that a tool call is in the assistant's message.
pub open spec fn use_block(u: ToolUseView) -> ContentBlockView {
    ContentBlockView::ToolUse { id: u.id, name: u.name, input: u.arguments }
}

/// The assistant's message: the reasoning, the text and the tool calls, as far as there are any.
pub open spec fn assistant_message(t: TurnView, uses: Seq<ToolUseView>) -> MessageView {
    let reasoning = if t.reasoning.len() == 0 {
        Seq::empty()
    } else {
        seq![ContentBlockView::Reasoning { text: t.reasoning, signature: t.signature }]
    };
    let text = if t.text.len() == 0 {
        Seq::empty()
    } else {
        seq![ContentBlockView::Text { text: t.text }]
    };
    MessageView {
        role: Role::Assistant,
        content: reasoning + text + uses.map_values(|u: ToolUseView| use_block(u)),
    }
}

/// What a turn came to, its calls having these arguments.
pub open spec fn turn_outcome(
    t: TurnView,
    args: Seq<Result<JsonView, AgentErrorView>>,
) -> Result<TurnOutcomeView, AgentErrorView> {
    let uses = complete_uses(t.calls, args);
    if first_error(args) < args.len() {
        Err(args[first_error(args)]->Err_0)
    } else {
        Ok(
            TurnOutcomeView {
                assistant_message: assistant_message(t, uses),
                finish_reason: match t.finish {
                    Some(reason) => reason,
                    None => FinishReason::Other,
                },
                usage: t.usage,
                tool_uses: uses,
            },
        )
    }
}

/// What is told at the end of a turn, its calls having these arguments: the end of each call, in
/// order, up to the first whose arguments are in error.
pub open spec fn end_events(
    t: TurnView,
    args: Seq<Result<JsonView, AgentErrorView>>,
) -> Seq<AgentEventView> {
    complete_uses(t.calls, args).map_values(|u: ToolUseView| end_event(t.turn, u))
}

/// A turn whose calls stand by their places.
pub open spec fn ordered_turn(t: TurnView) -> TurnView {
    TurnView { calls: by_order(t.calls), ..t }
}

/// The arguments of the calls of a turn.
pub open spec fn turn_args(t: TurnView) -> Seq<Result<JsonView, AgentErrorView>> {
    t.calls.map_values(|c: AccumView| call_args(c))
}

/// The end of a turn: what is told, and what it came to.
#[derive(Debug, PartialEq, Eq)]
pub struct FinishedTurn {
    /// What is told, in order.
    pub events: Vec<AgentEvent>,
    /// What the turn came to.
    pub result: Result<TurnOutcome, AgentError>,
}

pub(crate) proof fn lemma_call_index(calls: Seq<AccumView>, id: Seq<char>)
    ensures
        0 <= call_index(calls, id) <= calls.len(),
        call_index(calls, id) < calls.len() ==> calls[call_index(calls, id)].id == id,
    decreases calls.len(),
{
    if calls.len() > 0 && calls[0].id != id {
        lemma_call_index(calls.drop_first(), id);
    }
}

pub(crate) proof fn lemma_first_error(args: Seq<Result<JsonView, AgentErrorView>>)
    ensures
        0 <= first_error(args) <= args.len(),
        forall|i: int| 0 <= i < first_error(args) ==> (#[trigger] args[i]) is Ok,
        first_error(args) < args.len() ==> args[first_error(args)] is Err,
    decreases args.len(),
{
    if args.len() > 0 && !(args[0] is Err) {
        let rest = args.drop_first();
        lemma_first_error(rest);
        assert forall|i: int| 0 <= i < first_error(args) implies (#[trigger] args[i]) is Ok by {
            if i > 0 {
                assert(rest[i - 1] == args[i]);
            }
        }
    }
}

proof fn lemma_insert_call(sorted: Seq<AccumView>, call: AccumView, j: int)
    requires
        0 <= j <= sorted.len(),
        forall|k: int| j <= k < sorted.len() ==> (#[trigger] sorted[k]).order > call.order,
        j > 0 ==> sorted[j - 1].order <= call.order,
    ensures
        insert_call(sorted, call) == sorted.insert(j, call),
    decreases sorted.len(),
{
    if j == sorted.len() {
        assert(sorted.insert(j, call) =~= sorted.push(call));
    } else {
        let front = sorted.drop_last();
        lemma_insert_call(front, call, j);
        assert(front.insert(j, call).push(sorted.last()) =~= sorted.insert(j, call));
    }
}

/// What the arguments of a call are, given what a JSON parser makes of the fragments.
pub fn settle_arguments(call: &ToolUseAccum, parsed: Result<Json, String>) -> (r: Result<
    Json,
    AgentError,
>)
    ensures
        model::result_view(r) == settled_args(call@, model::result_view(parsed)),
{
    match &call.final_args {
        Some(j) => Ok(j.clone()),
        None => if trim(call.arg_buffer.as_str()).as_str().is_empty() {
            Ok(Json::empty_object())
        } else {
            match parsed {
                Ok(j) => Ok(j),
                Err(message) => Err(
                    AgentError::InvalidToolArguments { name: call.name.clone(), message },
                ),
            }
        },
    }
}

impl TurnState {
    /// A turn before its first event.
    pub fn new(turn: u32) -> (r: Self)
        ensures
            r@ == new_turn(turn),
    {
        TurnState {
            turn,
            text_buf: String::new(),
            reasoning_buf: String::new(),
            reasoning_signature: None,
            tool_calls: Vec::new(),
            next_order: 0,
            finish_reason: None,
            usage: Usage { input_tokens: 0, output_tokens: 0, cached_input_tokens: 0 },
        }
    }

    /// Takes the call with an identifier out of the turn, with its place among the calls.
    fn entry(&mut self, id: &String) -> (r: usize)
        ensures
            r < final(self).tool_calls@.len(),
            final(self).tool_calls@[r as int]@ == call_of(old(self)@.calls, id@),
            final(self)@ == (TurnView { calls: final(self)@.calls, ..old(self)@ }),
            forall|c: AccumView|
                #![trigger with_call(old(self)@.calls, id@, c)]
                final(self)@.calls.update(r as int, c) == with_call(old(self)@.calls, id@, c),
    {
        let ghost calls = self.tool_calls.deep_view();
        let mut i: usize = 0;
        assert(calls.skip(0) == calls);
        proof {
            lemma_call_index(calls, id@);
        }
        while i < self.tool_calls.len()
            invariant
                *self == *old(self),
                calls == self.tool_calls.deep_view(),
                i <= self.tool_calls@.len(),
                call_index(calls, id@) == i + call_index(calls.skip(i as int), id@),
            decreases self.tool_calls@.len() - i,
        {
            assert(calls.skip(i as int)[0] == self.tool_calls@[i as int]@);
            if same_text(self.tool_calls[i].id.as_str(), id.as_str()) {
                assert(calls[i as int] == self.tool_calls@[i as int]@);
                return i;
            }
            assert(calls.skip(i as int).drop_first() == calls.skip(i + 1));
            i = i + 1;
        }
        self.tool_calls.push(
            ToolUseAccum {
                id: id.clone(),
                name: String::new(),
                arg_buffer: String::new(),
                final_args: None,
                order: 0,
                announced: false,
            },
        );
        assert(self.tool_calls.deep_view() =~= calls.push(blank_call(id@)));
        assert forall|c: AccumView|
            #![trigger with_call(calls, id@, c)]
            self.tool_calls.deep_view().update(i as int, c) == with_call(calls, id@, c) by {
            assert(self.tool_calls.deep_view().update(i as int, c) =~= calls.push(c));
        }
        i
    }

    /// Puts a call in the place of the one at an index.
    fn replace(&mut self, i: usize, call: ToolUseAccum)
        requires
            i < old(self).tool_calls@.len(),
        ensures
            final(self)@ == (TurnView {
                calls: old(self)@.calls.update(i as int, call@),
                ..old(self)@
            }),
            final(self).tool_calls@.len() == old(self).tool_calls@.len(),
    {
        let ghost c = call@;
        let ghost calls = self.tool_calls.deep_view();
        self.tool_calls.set(i, call);
        assert(self.tool_calls.deep_view() =~= calls.update(i as int, c));
    }

    /// Takes in the next event of the stream, and says what is to be told of it.
    pub fn absorb(&mut self, event: Result<LanguageModelEvent, ModelError>) -> (r: Result<
        Option<AgentEvent>,
        AgentError,
    >)
        ensures
            match turn_step(old(self)@, model::result_view(event)) {
                Ok((t, told)) => final(self)@ == t && model::result_view(r) == Ok::<
                    Option<AgentEventView>,
                    AgentErrorView,
                >(told),
                Err(err) => final(self)@ == old(self)@ && model::result_view(r) == Err::<
                    Option<AgentEventView>,
                    AgentErrorView,
                >(err),
            },
    {
        let turn = self.turn;
        match event {
            Ok(LanguageModelEvent::TextDelta { delta }) => {
                self.text_buf.append(delta.as_str());
                Ok(Some(AgentEvent::TextDelta { turn, delta }))
            },
            Ok(LanguageModelEvent::ReasoningDelta { delta }) => {
                self.reasoning_buf.append(delta.as_str());
                Ok(Some(AgentEvent::ReasoningDelta { turn, delta }))
            },
            Ok(LanguageModelEvent::ReasoningSignature { signature }) => {
                self.reasoning_signature = Some(signature);
                Ok(None)
            },
            Ok(LanguageModelEvent::ToolCallStart { id, name }) => {
                let ghost before = self@;
                let i = self.entry(&id);
                if self.tool_calls[i].announced {
                    proof {
                        lemma_call_index(before.calls, id@);
                    }
                    assert(with_call(before.calls, id@, call_of(before.calls, id@)) =~= before.calls);
                    assert(self@.calls =~= self@.calls.update(i as int, call_of(before.calls, id@)));
                    Ok(None)
                } else {
                    let call = ToolUseAccum {
                        id: self.tool_calls[i].id.clone(),
                        name: name.clone(),
                        arg_buffer: self.tool_calls[i].arg_buffer.clone(),
                        final_args: self.tool_calls[i].final_args.clone(),
                        order: self.next_order,
                        announced: true,
                    };
                    self.replace(i, call);
                    self.next_order = self.next_order.saturating_add(1);
                    Ok(Some(AgentEvent::ToolCallStart { turn, id, name }))
                }
            },
            Ok(LanguageModelEvent::ToolCallDelta { id, arguments_delta }) => {
                let i = self.entry(&id);
                let mut arg_buffer = self.tool_calls[i].arg_buffer.clone();
                arg_buffer.append(arguments_delta.as_str());
                let call = ToolUseAccum {
                    id: self.tool_calls[i].id.clone(),
                    name: self.tool_calls[i].name.clone(),
                    arg_buffer,
                    final_args: self.tool_calls[i].final_args.clone(),
                    order: self.tool_calls[i].order,
                    announced: self.tool_calls[i].announced,
                };
                self.replace(i, call);
                Ok(None)
            },
            Ok(LanguageModelEvent::ToolCallEnd { id, arguments }) => {
                let i = self.entry(&id);
                let final_args = if arguments.is_some() {
                    arguments
                } else {
                    self.tool_calls[i].final_args.clone()
                };
                let call = ToolUseAccum {
                    id: self.tool_calls[i].id.clone(),
                    name: self.tool_calls[i].name.clone(),
                    arg_buffer: self.tool_calls[i].arg_buffer.clone(),
                    final_args,
                    order: self.tool_calls[i].order,
                    announced: self.tool_calls[i].announced,
                };
                self.replace(i, call);
                Ok(None)
            },
            Ok(LanguageModelEvent::Finish { reason, usage }) => {
                self.finish_reason = Some(reason);
                self.usage = usage;
                Ok(None)
            },
            Ok(LanguageModelEvent::Error { message }) => Err(
                AgentError::Provider(ModelError::Other(message)),
            ),
            Err(err) => Err(AgentError::Provider(err)),
        }
    }

    /// Puts the calls in order.
    fn order_calls(self) -> (r: Self)
        ensures
            r@ == ordered_turn(self@),
    {
        let mut this = self;
        let ghost all = this.tool_calls.deep_view();
        let mut rest: Vec<ToolUseAccum> = Vec::new();
        std::mem::swap(&mut rest, &mut this.tool_calls);
        let mut sorted: Vec<ToolUseAccum> = Vec::new();
        let ghost mut done: int = 0;
        assert(all.take(0) =~= Seq::empty());
        assert(all.skip(0) =~= rest.deep_view());
        assert(sorted.deep_view() =~= by_order(all.take(0)));
        while rest.len() > 0
            invariant
                0 <= done <= all.len(),
                rest.deep_view() == all.skip(done),
                sorted.deep_view() == by_order(all.take(done)),
            decreases rest@.len(),
        {
            let ghost left = rest.deep_view();
            let ghost placed = sorted.deep_view();
            assert(left.len() == rest@.len());
            let call = rest.remove(0);
            let ghost c = call@;
            assert(left[0] == c);
            assert(rest.deep_view() =~= left.drop_first());
            assert(left.drop_first() =~= all.skip(done + 1));
            let mut j: usize = sorted.len();
            while j > 0 && sorted[j - 1].order > call.order
                invariant
                    j <= sorted@.len(),
                    call@ == c,
                    placed == sorted.deep_view(),
                    forall|k: int| j <= k < placed.len() ==> (#[trigger] placed[k]).order > c.order,
                decreases j,
            {
                assert(placed[j - 1] == sorted@[j - 1]@);
                j = j - 1;
            }
            if j > 0 {
                assert(placed[j - 1] == sorted@[j - 1]@);
            }
            sorted.insert(j, call);
            proof {
                lemma_insert_call(placed, c, j as int);
                assert(sorted.deep_view() =~= placed.insert(j as int, c));
                assert(all.take(done + 1).drop_last() =~= all.take(done));
                assert(all.take(done + 1).last() == c);
                done = done + 1;
            }
        }
        assert(all.take(done) =~= all);
        this.tool_calls = sorted;
        this
    }

    /// Ends the turn, its calls having these arguments.
    pub fn finish_with(self, args: Vec<Result<Json, AgentError>>) -> (r: FinishedTurn)
        requires
            args@.len() == self@.calls.len(),
        ensures
            ({
                let settled = args@.map_values(|a: Result<Json, AgentError>| model::result_view(a));
                &&& r.events.deep_view() == end_events(self@, settled)
                &&& model::result_view(r.result) == turn_outcome(self@, settled)
            }),
    {
        let ghost t = self@;
        let ghost settled = args@.map_values(|a: Result<Json, AgentError>| model::result_view(a));
        let ghost uses = complete_uses(t.calls, settled);
        proof {
            lemma_first_error(settled);
        }
        let turn = self.turn;
        let mut rest = args;
        let mut events: Vec<AgentEvent> = Vec::new();
        let mut tool_uses: Vec<FinalToolUse> = Vec::new();
        let mut i: usize = 0;
        assert(settled.skip(0) =~= settled);
        while i < self.tool_calls.len()
            invariant
                i <= self.tool_calls@.len(),
                t == self@,
                turn == t.turn,
                settled == args@.map_values(|a: Result<Json, AgentError>| model::result_view(a)),
                settled.len() == t.calls.len(),
                rest@.len() == t.calls.len() - i,
                rest@.map_values(|a: Result<Json, AgentError>| model::result_view(a))
                    == settled.skip(i as int),
                uses == complete_uses(t.calls, settled),
                0 <= first_error(settled) <= settled.len(),
                i <= first_error(settled),
                forall|k: int| 0 <= k < first_error(settled) ==> (#[trigger] settled[k]) is Ok,
                first_error(settled) < settled.len() ==> settled[first_error(settled)] is Err,
                tool_uses.deep_view() == uses.take(i as int),
                events.deep_view() == uses.take(i as int).map_values(
                    |u: ToolUseView| end_event(turn, u),
                ),
            decreases self.tool_calls@.len() - i,
        {
            let ghost left = rest@.map_values(|a: Result<Json, AgentError>| model::result_view(a));
            let arg = rest.remove(0);
            assert(left[0] == model::result_view(arg));
            assert(settled.skip(i as int)[0] == settled[i as int]);
            assert(rest@.map_values(|a: Result<Json, AgentError>| model::result_view(a))
                =~= left.drop_first());
            assert(left.drop_first() =~= settled.skip(i + 1));
            assert(t.calls[i as int] == self.tool_calls@[i as int]@);
            match arg {
                Ok(arguments) => {
                    let ghost u = tool_use(t.calls[i as int], arguments@);
                    assert(first_error(settled) != i);
                    assert(uses[i as int] == u);
                    assert(uses.take(i + 1) =~= uses.take(i as int).push(u));
                    let ghost told = events.deep_view();
                    let ghost kept = tool_uses.deep_view();
                    events.push(
                        AgentEvent::ToolCallEnd {
                            turn,
                            id: self.tool_calls[i].id.clone(),
                            name: self.tool_calls[i].name.clone(),
                            arguments: arguments.clone(),
                        },
                    );
                    tool_uses.push(
                        FinalToolUse {
                            id: self.tool_calls[i].id.clone(),
                            name: self.tool_calls[i].name.clone(),
                            arguments,
                        },
                    );
                    assert(events.deep_view() =~= told.push(end_event(turn, u)));
                    assert(tool_uses.deep_view() =~= kept.push(u));
                    assert(uses.take(i + 1).map_values(|u: ToolUseView| end_event(turn, u))
                        =~= told.push(end_event(turn, u)));
                },
                Err(err) => {
                    assert(settled[i as int] is Err);
                    assert(first_error(settled) == i);
                    assert(uses.take(i as int) =~= uses);
                    assert(turn_outcome(t, settled) == Err::<TurnOutcomeView, AgentErrorView>(err@));
                    return FinishedTurn { events, result: Err(err) };
                },
            }
            i = i + 1;
        }
        assert(uses.take(i as int) =~= uses);
        let mut content: Vec<ContentBlock> = Vec::new();
        let ghost reasoning = assistant_message(t, Seq::empty()).content;
        let finish_reason = match self.finish_reason {
            Some(reason) => reason,
            None => FinishReason::Other,
        };
        let usage = self.usage;
        if !self.reasoning_buf.as_str().is_empty() {
            content.push(
                ContentBlock::Reasoning {
                    text: self.reasoning_buf,
                    signature: self.reasoning_signature,
                },
            );
        }
        if !self.text_buf.as_str().is_empty() {
            content.push(ContentBlock::text(self.text_buf));
        }
        let ghost head = content.deep_view();
        assert(head =~= reasoning);
        let mut k: usize = 0;
        while k < tool_uses.len()
            invariant
                k <= tool_uses@.len(),
                tool_uses.deep_view() == uses,
                content.deep_view() == head + uses.take(k as int).map_values(
                    |u: ToolUseView| use_block(u),
                ),
            decreases tool_uses@.len() - k,
        {
            let ghost so_far = content.deep_view();
            assert(uses[k as int] == tool_uses@[k as int]@);
            content.push(
                ContentBlock::ToolUse {
                    id: tool_uses[k].id.clone(),
                    name: tool_uses[k].name.clone(),
                    input: tool_uses[k].arguments.clone(),
                },
            );
            assert(content.deep_view() =~= so_far.push(use_block(uses[k as int])));
            assert(uses.take(k + 1) =~= uses.take(k as int).push(uses[k as int]));
            assert(uses.take(k + 1).map_values(|u: ToolUseView| use_block(u)) =~= uses.take(
                k as int,
            ).map_values(|u: ToolUseView| use_block(u)).push(use_block(uses[k as int])));
            assert(content.deep_view() =~= head + uses.take(k + 1).map_values(
                |u: ToolUseView| use_block(u),
            ));
            k = k + 1;
        }
        assert(uses.take(k as int) =~= uses);
        assert(content.deep_view() =~= assistant_message(t, uses).content);
        FinishedTurn {
            events,
            result: Ok(
                TurnOutcome {
                    assistant_message: Message::new(Role::Assistant, content),
                    finish_reason,
                    usage,
                    tool_uses,
                },
            ),
        }
    }

    /// Ends the turn.
    pub fn finish(self) -> (r: FinishedTurn)
        ensures
            ({
                let t = ordered_turn(self@);
                &&& r.events.deep_view() == end_events(t, turn_args(t))
                &&& model::result_view(r.result) == turn_outcome(t, turn_args(t))
            }),
    {
        let this = self.order_calls();
        let ghost t = this@;
        let mut args: Vec<Result<Json, AgentError>> = Vec::new();
        let mut i: usize = 0;
        while i < this.tool_calls.len()
            invariant
                i <= this.tool_calls@.len(),
                t == this@,
                args@.len() == i,
                forall|k: int|
                    0 <= k < i ==> model::result_view(#[trigger] args@[k]) == call_args(t.calls[k]),
            decreases this.tool_calls@.len() - i,
        {
            assert(t.calls[i as int] == this.tool_calls@[i as int]@);
            let parsed = Json::parse(this.tool_calls[i].arg_buffer.as_str());
            args.push(settle_arguments(&this.tool_calls[i], parsed));
            i = i + 1;
        }
        assert(args@.map_values(|a: Result<Json, AgentError>| model::result_view(a)) =~= turn_args(t));
        this.finish_with(args)
    }
}

proof fn lemma_insert_call_kept(sorted: Seq<AccumView>, call: AccumView)
    requires
        forall|i: int, j: int|
            0 <= i < j < sorted.len() ==> (#[trigger] sorted[i]).order <= (#[trigger] sorted[j]).order,
    ensures
        insert_call(sorted, call).to_multiset() == sorted.to_multiset().insert(call),
        insert_call(sorted, call).len() == sorted.len() + 1,
        forall|i: int, j: int|
            0 <= i < j < sorted.len() + 1 ==> (#[trigger] insert_call(sorted, call)[i]).order <= (
            #[trigger] insert_call(sorted, call)[j]).order,
        sorted.len() > 0 ==> insert_call(sorted, call).last().order <= if sorted.last().order
            <= call.order {
            call.order
        } else {
            sorted.last().order
        },
    decreases sorted.len(),
{
    broadcast use vstd::seq_lib::group_to_multiset_ensures;

    if sorted.len() == 0 || sorted.last().order <= call.order {
    } else {
        let front = sorted.drop_last();
        lemma_insert_call_kept(front, call);
        let inner = insert_call(front, call);
        assert(front.push(sorted.last()) =~= sorted);
        assert(inner.last().order <= sorted.last().order) by {
            if front.len() > 0 {
                assert(front.last() == sorted[front.len() - 1]);
                assert(sorted.last() == sorted[front.len() as int]);
            }
        }
        let all = insert_call(sorted, call);
        assert forall|i: int, j: int| 0 <= i < j < all.len() implies (#[trigger] all[i]).order <= (
        #[trigger] all[j]).order by {
            if j == inner.len() {
                assert(all[i] == inner[i]);
                if i < inner.len() - 1 {
                    assert(inner[i].order <= inner[inner.len() - 1].order);
                }
            } else {
                assert(all[i] == inner[i] && all[j] == inner[j]);
            }
        }
        assert(sorted.to_multiset().insert(call) =~= front.to_multiset().insert(call).insert(
            sorted.last(),
        ));
    }
}

/// The calls of a turn are put in order and nothing else is done to them: none is lost, none is
/// added, and the places do not fall.
pub proof fn law_by_order(calls: Seq<AccumView>)
    ensures
        by_order(calls).to_multiset() == calls.to_multiset(),
        by_order(calls).len() == calls.len(),
        forall|i: int, j: int|
            0 <= i < j < calls.len() ==> (#[trigger] by_order(calls)[i]).order <= (
            #[trigger] by_order(calls)[j]).order,
    decreases calls.len(),
{
    broadcast use vstd::seq_lib::group_to_multiset_ensures;

    if calls.len() > 0 {
        law_by_order(calls.drop_last());
        lemma_insert_call_kept(by_order(calls.drop_last()), calls.last());
        assert(calls.drop_last().push(calls.last()) =~= calls);
    }
}

/// A turn after some events of the stream, with what was told of them; or the error that ended it.
pub open spec fn turn_run(t: TurnView, events: Seq<Result<ModelEventView, ModelErrorView>>) -> Result<
    (TurnView, Seq<AgentEventView>),
    AgentErrorView,
>
    decreases events.len(),
{
    if events.len() == 0 {
        Ok((t, Seq::empty()))
    } else {
        match turn_run(t, events.drop_last()) {
            Err(e) => Err(e),
            Ok((before, told)) => match turn_step(before, events.last()) {
                Err(e) => Err(e),
                Ok((after, event)) => Ok((after, with_told(told, event))),
            },
        }
    }
}

/// What was told, with what is told of one more event.
pub open spec fn with_told(told: Seq<AgentEventView>, event: Option<AgentEventView>) -> Seq<
    AgentEventView,
> {
    match event {
        Some(x) => told.push(x),
        None => told,
    }
}

/// Whether the starts that these events tell are just those of the announced calls, each told once.
pub open spec fn starts_match(told: Seq<AgentEventView>, calls: Seq<AccumView>) -> bool {
    &&& forall|id: Seq<char>| #[trigger] start_told(told, id) == call_of(calls, id).announced
    &&& forall|i: int, j: int|
        0 <= i < j < told.len() && (#[trigger] told[i]) is ToolCallStart && (#[trigger] told[j])
            is ToolCallStart ==> told[i]->ToolCallStart_id != told[j]->ToolCallStart_id
}

/// The assistant text that some events tell.
pub open spec fn told_text(told: Seq<AgentEventView>) -> Seq<char>
    decreases told.len(),
{
    if told.len() == 0 {
        Seq::empty()
    } else {
        match told.last() {
            AgentEventView::TextDelta { delta, .. } => told_text(told.drop_last()) + delta,
            _ => told_text(told.drop_last()),
        }
    }
}

/// The reasoning that some events tell.
pub open spec fn told_reasoning(told: Seq<AgentEventView>) -> Seq<char>
    decreases told.len(),
{
    if told.len() == 0 {
        Seq::empty()
    } else {
        match told.last() {
            AgentEventView::ReasoningDelta { delta, .. } => told_reasoning(told.drop_last()) + delta,
            _ => told_reasoning(told.drop_last()),
        }
    }
}

/// The text and the reasoning of a turn are what the caller was told fragment by fragment.
pub proof fn law_text_is_what_was_told(
    turn: u32,
    events: Seq<Result<ModelEventView, ModelErrorView>>,
)
    ensures
        match turn_run(new_turn(turn), events) {
            Ok((t, told)) => t.text == told_text(told) && t.reasoning == told_reasoning(told),
            Err(_) => true,
        },
    decreases events.len(),
{
    if events.len() > 0 {
        law_text_is_what_was_told(turn, events.drop_last());
        match turn_run(new_turn(turn), events.drop_last()) {
            Ok((t, told)) => {
                match turn_step(t, events.last()) {
                    Ok((_, Some(event))) => {
                        assert(told.push(event).drop_last() =~= told);
                    },
                    _ => {},
                }
            },
            Err(_) => {},
        }
    }
}

pub(crate) proof fn lemma_call_of_with(calls: Seq<AccumView>, id: Seq<char>, call: AccumView, other: Seq<char>)
    requires
        call.id == id,
    ensures
        call_of(with_call(calls, id, call), other) == if other == id {
            call
        } else {
            call_of(calls, other)
        },
    decreases calls.len(),
{
    let all = with_call(calls, id, call);
    lemma_call_index(calls, id);
    if calls.len() == 0 {
        assert(all =~= seq![call]);
        assert(call_index(all.drop_first(), other) == 0);
        lemma_call_index(all, other);
    } else {
        let rest = calls.drop_first();
        lemma_call_of_with(rest, id, call, other);
        lemma_call_index(rest, id);
        lemma_call_index(rest, other);
        lemma_call_index(all, other);
        if calls[0].id == id {
            assert(all.drop_first() =~= rest);
        } else {
            assert(all.drop_first() =~= with_call(rest, id, call));
            lemma_call_index(with_call(rest, id, call), other);
        }
    }
}

pub(crate) proof fn lemma_call_of_id(calls: Seq<AccumView>, id: Seq<char>)
    ensures
        call_of(calls, id).id == id,
{
    lemma_call_index(calls, id);
}

/// Whether these events tell of the start of a call with this identifier.
pub open spec fn start_told(told: Seq<AgentEventView>, id: Seq<char>) -> bool {
    exists|i: int| 0 <= i < told.len() && (#[trigger] told[i]) is ToolCallStart && told[i]->ToolCallStart_id
        == id
}

/// The start of a call is told once, however often the provider repeats it: exactly the calls of
/// which a start was seen were told, and no identifier was told twice.
pub proof fn law_start_told_once(turn: u32, events: Seq<Result<ModelEventView, ModelErrorView>>)
    ensures
        match turn_run(new_turn(turn), events) {
            Ok((t, told)) => starts_match(told, t.calls),
            Err(_) => true,
        },
    decreases events.len(),
{
    if events.len() > 0 {
        law_start_told_once(turn, events.drop_last());
        match turn_run(new_turn(turn), events.drop_last()) {
            Ok((t, told)) => {
                lemma_start_step(t, told, events.last());
            },
            Err(_) => {},
        }
    }
}

proof fn lemma_start_step(
    t: TurnView,
    told: Seq<AgentEventView>,
    e: Result<ModelEventView, ModelErrorView>,
)
    requires
        starts_match(told, t.calls),
    ensures
        match turn_step(t, e) {
            Ok((after, event)) => starts_match(with_told(told, event), after.calls),
            Err(_) => true,
        },
{
    match turn_step(t, e) {
        Ok((after, event)) => {
            let all = with_told(told, event);
            assert forall|id: Seq<char>|
                #[trigger] start_told(all, id) == call_of(after.calls, id).announced by {
                assert(start_told(told, id) == call_of(t.calls, id).announced);
                if start_told(told, id) {
                    let i = choose|i: int|
                        0 <= i < told.len() && (#[trigger] told[i]) is ToolCallStart
                            && told[i]->ToolCallStart_id == id;
                    assert(all[i] == told[i]);
                    assert(start_told(all, id));
                }
                if start_told(all, id) && !start_told(told, id) {
                    let i = choose|i: int|
                        0 <= i < all.len() && (#[trigger] all[i]) is ToolCallStart
                            && all[i]->ToolCallStart_id == id;
                    if i < told.len() {
                        assert(told[i] == all[i]);
                    }
                    assert(i == told.len());
                }
                match e {
                    Ok(ModelEventView::ToolCallStart { id: key, name }) => {
                        let call = call_of(t.calls, key);
                        lemma_call_of_id(t.calls, key);
                        lemma_call_of_with(
                            t.calls,
                            key,
                            AccumView { name, order: t.next_order, announced: true, ..call },
                            id,
                        );
                        if event is Some {
                            assert(all[told.len() as int] == event->0);
                            if id == key {
                                assert(start_told(all, id));
                            }
                        }
                    },
                    Ok(ModelEventView::ToolCallDelta { id: key, arguments_delta }) => {
                        let call = call_of(t.calls, key);
                        lemma_call_of_id(t.calls, key);
                        lemma_call_of_with(
                            t.calls,
                            key,
                            AccumView { arg_buffer: call.arg_buffer + arguments_delta, ..call },
                            id,
                        );
                    },
                    Ok(ModelEventView::ToolCallEnd { id: key, arguments }) => {
                        let call = call_of(t.calls, key);
                        lemma_call_of_id(t.calls, key);
                        lemma_call_of_with(
                            t.calls,
                            key,
                            AccumView {
                                final_args: if arguments is Some {
                                    arguments
                                } else {
                                    call.final_args
                                },
                                ..call
                            },
                            id,
                        );
                    },
                    _ => {},
                }
            }
            assert forall|i: int, j: int|
                0 <= i < j < all.len() && (#[trigger] all[i]) is ToolCallStart && (#[trigger] all[j])
                    is ToolCallStart implies all[i]->ToolCallStart_id != all[j]->ToolCallStart_id by {
                assert(all[i] == told[i]);
                if j < told.len() {
                    assert(all[j] == told[j]);
                } else {
                    assert(start_told(told, all[i]->ToolCallStart_id));
                }
            }
        },
        Err(_) => {},
    }
}

/// The identifier of the tool call that an event is about.
pub open spec fn call_id(e: Result<ModelEventView, ModelErrorView>) -> Option<Seq<char>> {
    match e {
        Ok(ModelEventView::ToolCallStart { id, .. }) => Some(id),
        Ok(ModelEventView::ToolCallDelta { id, .. }) => Some(id),
        Ok(ModelEventView::ToolCallEnd { id, .. }) => Some(id),
        _ => None,
    }
}

/// Whether a call with this identifier is among those that were started.
pub open spec fn has_start(starts: Seq<(Seq<char>, Seq<char>)>, id: Seq<char>) -> bool {
    exists|k: int| 0 <= k < starts.len() && (#[trigger] starts[k]).0 == id
}

/// The calls that some events start, each with its identifier and its name, in the order of their
/// first starts.
pub open spec fn first_starts(events: Seq<Result<ModelEventView, ModelErrorView>>) -> Seq<
    (Seq<char>, Seq<char>),
>
    decreases events.len(),
{
    if events.len() == 0 {
        Seq::empty()
    } else {
        let before = first_starts(events.drop_last());
        match events.last() {
            Ok(ModelEventView::ToolCallStart { id, name }) => if has_start(before, id) {
                before
            } else {
                before.push((id, name))
            },
            _ => before,
        }
    }
}

/// Whether every call that some events are about is started by one of them.
pub open spec fn all_started(events: Seq<Result<ModelEventView, ModelErrorView>>) -> bool {
    forall|i: int|
        0 <= i < events.len() ==> (call_id(#[trigger] events[i]) matches Some(id) ==> has_start(
            first_starts(events),
            id,
        ))
}

/// Whether no two calls go by one identifier.
pub open spec fn distinct_ids(calls: Seq<AccumView>) -> bool {
    forall|i: int, j: int|
        0 <= i < j < calls.len() ==> (#[trigger] calls[i]).id != (#[trigger] calls[j]).id
}

spec fn placed(calls: Seq<AccumView>, k: int) -> bool {
    exists|i: int| 0 <= i < calls.len() && (#[trigger] calls[i]).announced && calls[i].order == k
}

/// The announced calls stand for the starts: each for the one at its place, and one for each.
spec fn places_fit(calls: Seq<AccumView>, starts: Seq<(Seq<char>, Seq<char>)>) -> bool {
    &&& distinct_ids(calls)
    &&& forall|i: int|
        0 <= i < calls.len() && (#[trigger] calls[i]).announced ==> calls[i].order < starts.len()
            && starts[calls[i].order as int] == (calls[i].id, calls[i].name)
    &&& forall|k: int| 0 <= k < starts.len() ==> #[trigger] placed(calls, k)
}

spec fn mentioned(events: Seq<Result<ModelEventView, ModelErrorView>>, id: Seq<char>) -> bool {
    exists|i: int| 0 <= i < events.len() && call_id(#[trigger] events[i]) == Some(id)
}

pub(crate) proof fn lemma_first_index(calls: Seq<AccumView>, id: Seq<char>)
    ensures
        forall|i: int| 0 <= i < call_index(calls, id) ==> (#[trigger] calls[i]).id != id,
    decreases calls.len(),
{
    if calls.len() > 0 && calls[0].id != id {
        let rest = calls.drop_first();
        lemma_first_index(rest, id);
        lemma_call_index(rest, id);
        assert forall|i: int| 0 <= i < call_index(calls, id) implies (#[trigger] calls[i]).id != id by {
            if i > 0 {
                assert(rest[i - 1] == calls[i]);
            }
        }
    }
}

proof fn lemma_announced_is_started(
    calls: Seq<AccumView>,
    starts: Seq<(Seq<char>, Seq<char>)>,
    id: Seq<char>,
)
    requires
        places_fit(calls, starts),
    ensures
        call_of(calls, id).announced == has_start(starts, id),
{
    let at = call_index(calls, id);
    lemma_call_index(calls, id);
    lemma_first_index(calls, id);
    if call_of(calls, id).announced {
        assert(starts[calls[at].order as int].0 == id);
    }
    if has_start(starts, id) {
        let k = choose|k: int| 0 <= k < starts.len() && (#[trigger] starts[k]).0 == id;
        assert(placed(calls, k));
        let i = choose|i: int|
            0 <= i < calls.len() && (#[trigger] calls[i]).announced && calls[i].order == k;
        assert(calls[i].id == id);
        if at < i {
            assert(calls[at].id != calls[i].id);
        }
        assert(at == i);
    }
}

pub(crate) proof fn lemma_distinct_kept(calls: Seq<AccumView>, id: Seq<char>, call: AccumView)
    requires
        distinct_ids(calls),
        call.id == id,
    ensures
        distinct_ids(with_call(calls, id, call)),
{
    lemma_call_index(calls, id);
    lemma_first_index(calls, id);
    let at = call_index(calls, id);
    let all = with_call(calls, id, call);
    assert forall|i: int, j: int| 0 <= i < j < all.len() implies (#[trigger] all[i]).id != (
    #[trigger] all[j]).id by {
        if j < calls.len() {
            assert(calls[i].id != calls[j].id);
        }
    }
}

proof fn lemma_places_kept(
    calls: Seq<AccumView>,
    starts: Seq<(Seq<char>, Seq<char>)>,
    id: Seq<char>,
    call: AccumView,
)
    requires
        places_fit(calls, starts),
        call.id == id,
        call.name == call_of(calls, id).name,
        call.order == call_of(calls, id).order,
        call.announced == call_of(calls, id).announced,
    ensures
        places_fit(with_call(calls, id, call), starts),
{
    lemma_call_index(calls, id);
    lemma_distinct_kept(calls, id, call);
    let all = with_call(calls, id, call);
    assert forall|k: int| 0 <= k < starts.len() implies #[trigger] placed(all, k) by {
        assert(placed(calls, k));
        let i = choose|i: int|
            0 <= i < calls.len() && (#[trigger] calls[i]).announced && calls[i].order == k;
        assert(all[i].announced && all[i].order == k);
    }
    assert forall|i: int| 0 <= i < all.len() && (#[trigger] all[i]).announced implies all[i].order
        < starts.len() && starts[all[i].order as int] == (all[i].id, all[i].name) by {
        if i < calls.len() {
            assert(calls[i].announced);
        }
    }
}

proof fn lemma_place_taken(
    calls: Seq<AccumView>,
    starts: Seq<(Seq<char>, Seq<char>)>,
    id: Seq<char>,
    call: AccumView,
)
    requires
        places_fit(calls, starts),
        !call_of(calls, id).announced,
        call.id == id,
        call.order == starts.len(),
        call.announced,
    ensures
        places_fit(with_call(calls, id, call), starts.push((id, call.name))),
{
    lemma_call_index(calls, id);
    lemma_distinct_kept(calls, id, call);
    let all = with_call(calls, id, call);
    let more = starts.push((id, call.name));
    let at = call_index(calls, id);
    assert(all[at] == call);
    assert forall|k: int| 0 <= k < more.len() implies #[trigger] placed(all, k) by {
        if k < starts.len() {
            assert(placed(calls, k));
            let i = choose|i: int|
                0 <= i < calls.len() && (#[trigger] calls[i]).announced && calls[i].order == k;
            assert(all[i].announced && all[i].order == k);
        } else {
            assert(all[at].announced && all[at].order == k);
        }
    }
    assert forall|i: int| 0 <= i < all.len() && (#[trigger] all[i]).announced implies all[i].order
        < more.len() && more[all[i].order as int] == (all[i].id, all[i].name) by {
        if i != at {
            assert(calls[i].announced);
        }
    }
}

proof fn lemma_places(turn: u32, events: Seq<Result<ModelEventView, ModelErrorView>>)
    requires
        first_starts(events).len() <= u32::MAX + 1,
    ensures
        match turn_run(new_turn(turn), events) {
            Ok((t, _)) => {
                &&& places_fit(t.calls, first_starts(events))
                &&& t.next_order == if first_starts(events).len() <= u32::MAX {
                    first_starts(events).len() as int
                } else {
                    u32::MAX as int
                }
                &&& forall|i: int|
                    0 <= i < t.calls.len() ==> mentioned(events, (#[trigger] t.calls[i]).id)
            },
            Err(_) => true,
        },
    decreases events.len(),
{
    if events.len() > 0 {
        let front = events.drop_last();
        let starts = first_starts(front);
        lemma_places(turn, front);
        match turn_run(new_turn(turn), front) {
            Ok((t, _)) => {
                let e = events.last();
                match e {
                    Ok(ModelEventView::ToolCallStart { id, name }) => {
                        let call = call_of(t.calls, id);
                        lemma_call_of_id(t.calls, id);
                        lemma_announced_is_started(t.calls, starts, id);
                        if !call.announced {
                            lemma_place_taken(
                                t.calls,
                                starts,
                                id,
                                AccumView { name, order: t.next_order, announced: true, ..call },
                            );
                        }
                    },
                    Ok(ModelEventView::ToolCallDelta { id, arguments_delta }) => {
                        let call = call_of(t.calls, id);
                        lemma_call_of_id(t.calls, id);
                        lemma_places_kept(
                            t.calls,
                            starts,
                            id,
                            AccumView { arg_buffer: call.arg_buffer + arguments_delta, ..call },
                        );
                    },
                    Ok(ModelEventView::ToolCallEnd { id, arguments }) => {
                        let call = call_of(t.calls, id);
                        lemma_call_of_id(t.calls, id);
                        lemma_places_kept(
                            t.calls,
                            starts,
                            id,
                            AccumView {
                                final_args: if arguments is Some {
                                    arguments
                                } else {
                                    call.final_args
                                },
                                ..call
                            },
                        );
                    },
                    _ => {},
                }
                match turn_step(t, e) {
                    Ok(_) => {
                        lemma_mentioned(t, events);
                    },
                    Err(_) => {},
                }
            },
            Err(_) => {},
        }
    }
}

proof fn lemma_mentioned(t: TurnView, events: Seq<Result<ModelEventView, ModelErrorView>>)
    requires
        events.len() > 0,
        forall|i: int|
            0 <= i < t.calls.len() ==> mentioned(events.drop_last(), (#[trigger] t.calls[i]).id),
    ensures
        match turn_step(t, events.last()) {
            Ok((after, _)) => forall|i: int|
                0 <= i < after.calls.len() ==> mentioned(events, (#[trigger] after.calls[i]).id),
            Err(_) => true,
        },
{
    let front = events.drop_last();
    match turn_step(t, events.last()) {
        Ok((after, _)) => {
            match call_id(events.last()) {
                Some(id) => {
                    lemma_call_index(t.calls, id);
                    assert(call_id(events[events.len() - 1]) == Some(id));
                },
                None => {},
            }
            assert forall|i: int| 0 <= i < after.calls.len() implies mentioned(
                events,
                (#[trigger] after.calls[i]).id,
            ) by {
                if i < t.calls.len() {
                    assert(mentioned(front, t.calls[i].id));
                    let k = choose|k: int|
                        0 <= k < front.len() && call_id(#[trigger] front[k]) == Some(
                            t.calls[i].id,
                        );
                    assert(events[k] == front[k]);
                }
            }
        },
        Err(_) => {},
    }
}

proof fn lemma_sorted_places(calls: Seq<AccumView>, starts: Seq<(Seq<char>, Seq<char>)>)
    requires
        places_fit(calls, starts),
        forall|i: int| 0 <= i < calls.len() ==> (#[trigger] calls[i]).announced,
    ensures
        by_order(calls).len() == starts.len(),
        forall|k: int|
            0 <= k < starts.len() ==> (#[trigger] by_order(calls)[k]).id == starts[k].0
                && by_order(calls)[k].name == starts[k].1,
{
    broadcast use vstd::seq_lib::group_to_multiset_ensures;

    let sorted = by_order(calls);
    law_by_order(calls);
    assert(calls.no_duplicates());
    calls.lemma_multiset_has_no_duplicates();
    sorted.lemma_multiset_has_no_duplicates_conv();
    assert forall|i: int| 0 <= i < sorted.len() implies calls.contains(#[trigger] sorted[i]) by {
        assert(sorted.contains(sorted[i]));
        assert(sorted.to_multiset().count(sorted[i]) > 0);
    }
    assert forall|i: int| 0 <= i < sorted.len() implies (#[trigger] sorted[i]).order < starts.len()
        && starts[sorted[i].order as int] == (sorted[i].id, sorted[i].name) by {
        assert(calls.contains(sorted[i]));
    }
    assert forall|i: int, j: int| 0 <= i < j < sorted.len() implies (#[trigger] sorted[i]).order < (
    #[trigger] sorted[j]).order by {
        if sorted[i].order == sorted[j].order {
            assert(calls.contains(sorted[i]) && calls.contains(sorted[j]));
            assert(sorted[i].id == sorted[j].id);
            let a = choose|a: int| 0 <= a < calls.len() && calls[a] == sorted[i];
            let b = choose|b: int| 0 <= b < calls.len() && calls[b] == sorted[j];
            assert(calls[a].id == calls[b].id);
            assert(a == b);
        }
    }
    assert forall|k: int| 0 <= k < starts.len() implies #[trigger] placed(sorted, k) by {
        assert(placed(calls, k));
        let i = choose|i: int|
            0 <= i < calls.len() && (#[trigger] calls[i]).announced && calls[i].order == k;
        assert(calls.contains(calls[i]));
        assert(calls.to_multiset().count(calls[i]) > 0);
        assert(sorted.contains(calls[i]));
        let j = choose|j: int| 0 <= j < sorted.len() && sorted[j] == calls[i];
        assert(sorted[j].announced && sorted[j].order == k);
    }
    lemma_rising(sorted, starts.len());
}

proof fn lemma_rising(sorted: Seq<AccumView>, n: nat)
    requires
        forall|i: int, j: int|
            0 <= i < j < sorted.len() ==> (#[trigger] sorted[i]).order < (
            #[trigger] sorted[j]).order,
        forall|i: int| 0 <= i < sorted.len() ==> (#[trigger] sorted[i]).order < n,
        forall|k: int| 0 <= k < n ==> #[trigger] placed(sorted, k),
    ensures
        sorted.len() == n,
        forall|k: int| 0 <= k < n ==> (#[trigger] sorted[k]).order == k,
    decreases n,
{
    if n == 0 {
        if sorted.len() > 0 {
            assert(sorted[0].order < n);
        }
    } else {
        assert(placed(sorted, n - 1));
        let at = choose|i: int|
            0 <= i < sorted.len() && (#[trigger] sorted[i]).announced && sorted[i].order == n - 1;
        if at < sorted.len() - 1 {
            assert(sorted[at].order < sorted[sorted.len() - 1].order);
        }
        let front = sorted.drop_last();
        assert forall|i: int| 0 <= i < front.len() implies (#[trigger] front[i]).order < n - 1 by {
            assert(sorted[i].order < sorted[at].order);
        }
        assert forall|k: int| 0 <= k < n - 1 implies #[trigger] placed(front, k) by {
            assert(placed(sorted, k));
            let i = choose|i: int|
                0 <= i < sorted.len() && (#[trigger] sorted[i]).announced && sorted[i].order == k;
            assert(front[i].announced && front[i].order == k);
        }
        lemma_rising(front, (n - 1) as nat);
        assert forall|k: int| 0 <= k < n implies (#[trigger] sorted[k]).order == k by {
            if k < n - 1 {
                assert(front[k].order == k);
            }
        }
    }
}

/// The tool uses of a turn hold each identifier once, in the order in which the calls were first
/// started, each under the name of its first start: whatever came between, and in whatever order the
/// fragments and the ends of the calls came. This is so where every call is started, and where there
/// are no more calls than places.
pub proof fn law_uses_in_order_of_start(
    turn: u32,
    events: Seq<Result<ModelEventView, ModelErrorView>>,
)
    requires
        all_started(events),
        first_starts(events).len() <= u32::MAX + 1,
    ensures
        match turn_run(new_turn(turn), events) {
            Ok((t, _)) => {
                let ordered = ordered_turn(t);
                let starts = first_starts(events);
                &&& forall|i: int, j: int|
                    0 <= i < j < starts.len() ==> (#[trigger] starts[i]).0 != (
                    #[trigger] starts[j]).0
                &&& ordered.calls.map_values(|c: AccumView| (c.id, c.name)) == starts
                &&& turn_outcome(ordered, turn_args(ordered)) matches Ok(o)
                    ==> o.tool_uses.map_values(|u: ToolUseView| (u.id, u.name)) == starts
            },
            Err(_) => true,
        },
{
    match turn_run(new_turn(turn), events) {
        Ok((t, _)) => {
            let starts = first_starts(events);
            let ordered = ordered_turn(t);
            lemma_places(turn, events);
            assert forall|i: int| 0 <= i < t.calls.len() implies (
            #[trigger] t.calls[i]).announced by {
                let id = t.calls[i].id;
                assert(mentioned(events, id));
                let k = choose|k: int|
                    0 <= k < events.len() && call_id(#[trigger] events[k]) == Some(id);
                assert(call_id(events[k]) == Some(id));
                lemma_announced_is_started(t.calls, starts, id);
                lemma_call_index(t.calls, id);
                lemma_first_index(t.calls, id);
                let at = call_index(t.calls, id);
                if at < i {
                    assert(t.calls[at].id != t.calls[i].id);
                }
            }
            lemma_sorted_places(t.calls, starts);
            lemma_starts_differ(events);
            assert(ordered.calls.map_values(|c: AccumView| (c.id, c.name)) =~= starts);
            let args = turn_args(ordered);
            lemma_first_error(args);
            if first_error(args) >= args.len() {
                let uses = complete_uses(ordered.calls, args);
                assert(uses.map_values(|u: ToolUseView| (u.id, u.name)) =~= starts);
            }
        },
        Err(_) => {},
    }
}

proof fn lemma_starts_differ(events: Seq<Result<ModelEventView, ModelErrorView>>)
    ensures
        forall|i: int, j: int|
            0 <= i < j < first_starts(events).len() ==> (#[trigger] first_starts(events)[i]).0 != (
            #[trigger] first_starts(events)[j]).0,
    decreases events.len(),
{
    if events.len() > 0 {
        let before = first_starts(events.drop_last());
        let all = first_starts(events);
        lemma_starts_differ(events.drop_last());
        assert forall|i: int, j: int| 0 <= i < j < all.len() implies (#[trigger] all[i]).0 != (
        #[trigger] all[j]).0 by {
            assert(all[i] == before[i]);
            if j < before.len() {
                assert(all[j] == before[j]);
            }
        }
    }
}

} // verus!
