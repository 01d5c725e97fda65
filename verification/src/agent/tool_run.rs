//! The tool calls of one turn: which may run, what they gave, and what goes back to the model.

use crate::agent::error::{AgentError, AgentErrorView};
use crate::agent::event::{AgentEvent, AgentEventView};
use crate::agent::hook::{HookEvent, HookEventView, HookFlow, HookFlowView};
use crate::agent::permission::{Decision, DecisionView};
use crate::agent::tool;
use crate::agent::tool::{ToolResult, ToolResultView};
use crate::agent::turn::{FinalToolUse, ToolUseView};
use crate::language_model::event::FinishReason;
use crate::language_model::message::{ContentBlock, ContentBlockView};
use crate::language_model::tool::{ToolSpec, ToolSpecView};
use crate::model;
use crate::text::{concat3, concat4, same_text};
use vstd::prelude::*;
use vstd::string::*;

verus! {

/// Whether a tool with this name is registered.
pub open spec fn registered(specs: Seq<ToolSpecView>, name: Seq<char>) -> bool {
    exists|i: int| 0 <= i < specs.len() && (#[trigger] specs[i]).name == name
}

/// Whether a tool with this name is registered.
pub fn is_registered(specs: &Vec<ToolSpec>, name: &str) -> (r: bool)
    ensures
        r == registered(specs.deep_view(), name@),
{
    let mut i: usize = 0;
    while i < specs.len()
        invariant
            i <= specs@.len(),
            forall|j: int| 0 <= j < i ==> (#[trigger] specs.deep_view()[j]).name != name@,
        decreases specs@.len() - i,
    {
        assert(specs.deep_view()[i as int] == specs@[i as int]@);
        if same_text(specs[i].name.as_str(), name) {
            return true;
        }
        i = i + 1;
    }
    false
}

/// The error that the first call of an unregistered tool means: nothing runs then.
pub open spec fn preflight_error(
    calls: Seq<ToolUseView>,
    specs: Seq<ToolSpecView>,
) -> Option<AgentErrorView>
    decreases calls.len(),
{
    if calls.len() == 0 {
        None
    } else if !registered(specs, calls[0].name) {
        Some(
            AgentErrorView::Tool {
                name: calls[0].name,
                message: "tool not registered with agent"@,
            },
        )
    } else {
        preflight_error(calls.drop_first(), specs)
    }
}

/// Looks for a call of an unregistered tool.
pub fn preflight(calls: &Vec<FinalToolUse>, specs: &Vec<ToolSpec>) -> (r: Result<(), AgentError>)
    ensures
        match preflight_error(calls.deep_view(), specs.deep_view()) {
            Some(e) => model::result_view(r) == Err::<(), AgentErrorView>(e),
            None => r is Ok,
        },
{
    let ghost all = calls.deep_view();
    let mut i: usize = 0;
    assert(all.skip(0) == all);
    while i < calls.len()
        invariant
            i <= calls@.len(),
            all == calls.deep_view(),
            preflight_error(all, specs.deep_view()) == preflight_error(
                all.skip(i as int),
                specs.deep_view(),
            ),
        decreases calls@.len() - i,
    {
        assert(all.skip(i as int)[0] == calls@[i as int]@);
        if !is_registered(specs, calls[i].name.as_str()) {
            return Err(
                AgentError::Tool {
                    name: calls[i].name.clone(),
                    message: "tool not registered with agent".to_owned(),
                },
            );
        }
        assert(all.skip(i as int).drop_first() == all.skip(i + 1));
        i = i + 1;
    }
    Ok(())
}

/// Where a call stands after the hooks had their say.
#[derive(Debug, PartialEq, Eq)]
pub enum HookGate {
    /// The permission policy is next.
    CheckPermission,
    /// The call does not run; the model gets this instead.
    Refused(ToolResult),
    /// The run ends.
    Halted(AgentError),
}

/// Model of where a call stands after the hooks.
#[verifier::ext_equal]
pub enum HookGateView {
    CheckPermission,
    Refused(ToolResultView),
    Halted(AgentErrorView),
}

impl View for HookGate {
    type V = HookGateView;

    open spec fn view(&self) -> HookGateView {
        match *self {
            HookGate::CheckPermission => HookGateView::CheckPermission,
            HookGate::Refused(r) => HookGateView::Refused(r@),
            HookGate::Halted(e) => HookGateView::Halted(e@),
        }
    }
}

/// Where a call stands after the hooks.
pub open spec fn hook_gate(name: Seq<char>, flow: HookFlowView) -> HookGateView {
    match flow {
        HookFlowView::Continue(_) => HookGateView::CheckPermission,
        HookFlowView::Deny(reason) => HookGateView::Refused(
            tool::error_result("hook denied tool '"@ + name + "': "@ + reason),
        ),
        HookFlowView::Halt(reason) => HookGateView::Halted(AgentErrorView::HookHalt(reason)),
    }
}

/// Where a call stands after the hooks.
pub fn gate_after_hooks(name: &String, flow: HookFlow) -> (r: HookGate)
    ensures
        r@ == hook_gate(name@, flow@),
{
    match flow {
        HookFlow::Continue(_) => HookGate::CheckPermission,
        HookFlow::Deny(reason) => HookGate::Refused(
            ToolResult::error(
                concat4("hook denied tool '", name.as_str(), "': ", reason.as_str()),
            ),
        ),
        HookFlow::Halt(reason) => HookGate::Halted(AgentError::HookHalt(reason)),
    }
}

/// What stands in for the result of a call on which the verdict is in: nothing where it may run.
pub open spec fn verdict(name: Seq<char>, decision: DecisionView) -> Option<ToolResultView> {
    match decision {
        DecisionView::Allow => None,
        DecisionView::Deny(reason) => Some(
            tool::error_result("permission denied for '"@ + name + "': "@ + reason),
        ),
        DecisionView::AskUser { prompt } => Some(
            tool::error_result(
                "permission policy left AskUser unresolved for '"@ + name + "': "@ + prompt,
            ),
        ),
    }
}

/// What stands in for the result of a call on which the verdict is in.
pub fn settle_verdict(name: &String, decision: Decision) -> (r: Option<ToolResult>)
    ensures
        r.deep_view() == verdict(name@, decision@),
{
    match decision {
        Decision::Allow => None,
        Decision::Deny(reason) => Some(
            ToolResult::error(
                concat4("permission denied for '", name.as_str(), "': ", reason.as_str()),
            ),
        ),
        Decision::AskUser { prompt } => Some(
            ToolResult::error(
                concat4(
                    "permission policy left AskUser unresolved for '",
                    name.as_str(),
                    "': ",
                    prompt.as_str(),
                ),
            ),
        ),
    }
}

/// Where a call stands after the permission policy.
#[derive(Debug, PartialEq, Eq)]
pub enum PolicyGate {
    /// The user is asked.
    Ask {
        /// The question.
        prompt: String,
    },
    /// The verdict is in: what stands in for the result, or nothing where the call may run.
    Settled(Option<ToolResult>),
}

/// Model of where a call stands after the permission policy.
#[verifier::ext_equal]
pub enum PolicyGateView {
    Ask { prompt: Seq<char> },
    Settled(Option<ToolResultView>),
}

impl View for PolicyGate {
    type V = PolicyGateView;

    open spec fn view(&self) -> PolicyGateView {
        match *self {
            PolicyGate::Ask { prompt } => PolicyGateView::Ask { prompt: prompt@ },
            PolicyGate::Settled(r) => PolicyGateView::Settled(r.deep_view()),
        }
    }
}

/// Where a call stands after the permission policy. Where nobody can be asked, a question means
/// no.
pub open spec fn policy_gate(name: Seq<char>, decision: DecisionView, can_ask: bool) -> PolicyGateView {
    match decision {
        DecisionView::AskUser { prompt } => if can_ask {
            PolicyGateView::Ask { prompt }
        } else {
            PolicyGateView::Settled(
                verdict(
                    name,
                    DecisionView::Deny(
                        "permission policy asked the user for '"@ + name
                            + "' but no AskUser callback is configured"@,
                    ),
                ),
            )
        },
        _ => PolicyGateView::Settled(verdict(name, decision)),
    }
}

/// Where a call stands after the permission policy.
pub fn gate_after_policy(name: &String, decision: Decision, can_ask: bool) -> (r: PolicyGate)
    ensures
        r@ == policy_gate(name@, decision@, can_ask),
{
    match decision {
        Decision::AskUser { prompt } => if can_ask {
            PolicyGate::Ask { prompt }
        } else {
            let reason = concat3(
                "permission policy asked the user for '",
                name.as_str(),
                "' but no AskUser callback is configured",
            );
            PolicyGate::Settled(settle_verdict(name, Decision::Deny(reason)))
        },
        _ => PolicyGate::Settled(settle_verdict(name, decision)),
    }
}

/// The tool calls of a turn on their way.
#[derive(Debug, PartialEq, Eq)]
pub struct ToolRun {
    /// The turn that made the calls.
    pub turn: u32,
    /// Why the provider stopped in that turn.
    pub reason: FinishReason,
    /// The calls, in order.
    pub calls: Vec<FinalToolUse>,
    /// The results of the calls, as far as the calls have passed the gates: nothing where a call
    /// has not run yet.
    pub results: Vec<Option<ToolResult>>,
}

/// Model of the tool calls of a turn on their way.
#[verifier::ext_equal]
pub struct ToolRunView {
    pub turn: u32,
    pub reason: FinishReason,
    pub calls: Seq<ToolUseView>,
    pub results: Seq<Option<ToolResultView>>,
}

impl View for ToolRun {
    type V = ToolRunView;

    open spec fn view(&self) -> ToolRunView {
        ToolRunView {
            turn: self.turn,
            reason: self.reason,
            calls: self.calls.deep_view(),
            results: self.results.deep_view(),
        }
    }
}

impl DeepView for ToolRun {
    type V = ToolRunView;

    open spec fn deep_view(&self) -> ToolRunView {
        self@
    }
}

/// The calls before the first has been looked at.
pub open spec fn new_tool_run(turn: u32, reason: FinishReason, calls: Seq<ToolUseView>) -> ToolRunView {
    ToolRunView { turn, reason, calls, results: Seq::empty() }
}

/// The calls with one more past the gates.
pub open spec fn with_gated(run: ToolRunView, r: Option<ToolResultView>) -> ToolRunView {
    ToolRunView { results: run.results.push(r), ..run }
}

/// The calls with all of them past the gates: those that were not looked at may run.
pub open spec fn with_rest_allowed(run: ToolRunView) -> ToolRunView {
    ToolRunView {
        results: run.results + Seq::new(
            (run.calls.len() - run.results.len()) as nat,
            |i: int| None::<ToolResultView>,
        ),
        ..run
    }
}

/// The calls with the result of one of them.
pub open spec fn with_result(run: ToolRunView, i: int, r: ToolResultView) -> ToolRunView {
    ToolRunView { results: run.results.update(i, Some(r)), ..run }
}

/// The first call at or behind `from` that has a result (`done`) or has none (`!done`), or the
/// number of results where there is no such call.
pub open spec fn next_call(results: Seq<Option<ToolResultView>>, from: int, done: bool) -> int
    decreases results.len() - from,
{
    if from >= results.len() {
        results.len() as int
    } else if (results[from] is Some) == done {
        from
    } else {
        next_call(results, from + 1, done)
    }
}

/// The calls without a result among the first `n`, each with its place.
pub open spec fn ready_calls(run: ToolRunView, n: int) -> Seq<(int, ToolUseView)>
    decreases n,
{
    if n <= 0 {
        Seq::empty()
    } else if run.results[n - 1] is None {
        ready_calls(run, n - 1).push((n - 1, run.calls[n - 1]))
    } else {
        ready_calls(run, n - 1)
    }
}

/// The block that tells the model of a result.
pub open spec fn result_block(call: ToolUseView, r: ToolResultView) -> ContentBlockView {
    ContentBlockView::ToolResult {
        tool_use_id: call.id,
        content: r.content,
        is_error: if r.is_error {
            Some(true)
        } else {
            None
        },
    }
}

/// The blocks that tell the model of the results of the first `n` calls, in order.
pub open spec fn result_blocks(run: ToolRunView, n: int) -> Seq<ContentBlockView>
    decreases n,
{
    if n <= 0 {
        Seq::empty()
    } else {
        match run.results[n - 1] {
            Some(r) => result_blocks(run, n - 1).push(result_block(run.calls[n - 1], r)),
            None => result_blocks(run, n - 1),
        }
    }
}

/// The event that tells of a result.
pub open spec fn result_event(turn: u32, call: ToolUseView, r: ToolResultView) -> AgentEventView {
    AgentEventView::ToolResult {
        turn,
        id: call.id,
        name: call.name,
        content: r.content,
        is_error: r.is_error,
    }
}

/// A call that is to run, with its place.
#[derive(Debug, PartialEq, Eq)]
pub struct ReadyCall {
    /// The place of the call among the calls of the turn.
    pub index: usize,
    /// The tool's name.
    pub name: String,
    /// The arguments.
    pub arguments: crate::json::Json,
}

/// Model of a call that is to run.
#[verifier::ext_equal]
pub struct ReadyCallView {
    pub index: int,
    pub name: Seq<char>,
    pub arguments: crate::json::JsonView,
}

impl View for ReadyCall {
    type V = ReadyCallView;

    open spec fn view(&self) -> ReadyCallView {
        ReadyCallView { index: self.index as int, name: self.name@, arguments: self.arguments@ }
    }
}

impl DeepView for ReadyCall {
    type V = ReadyCallView;

    open spec fn deep_view(&self) -> ReadyCallView {
        self@
    }
}

/// A call that is to run.
pub open spec fn ready_call(i: int, call: ToolUseView) -> ReadyCallView {
    ReadyCallView { index: i, name: call.name, arguments: call.arguments }
}

/// The calls that are to run, among the first `n`.
pub open spec fn ready_list(run: ToolRunView, n: int) -> Seq<ReadyCallView> {
    ready_calls(run, n).map_values(|p: (int, ToolUseView)| ready_call(p.0, p.1))
}

impl ToolRun {
    /// The calls before the first has been looked at.
    pub fn new(turn: u32, reason: FinishReason, calls: Vec<FinalToolUse>) -> (r: Self)
        ensures
            r@ == new_tool_run(turn, reason, calls.deep_view()),
    {
        ToolRun { turn, reason, calls, results: Vec::new() }
    }

    /// Lets one more call past the gates.
    pub fn gated(self, result: Option<ToolResult>) -> (r: Self)
        ensures
            r@ == with_gated(self@, result.deep_view()),
    {
        let mut this = self;
        let ghost before = this.results.deep_view();
        let ghost given = result.deep_view();
        this.results.push(result);
        assert(this.results.deep_view() =~= before.push(given));
        this
    }

    /// Lets all the calls past the gates that were not looked at.
    pub fn allow_rest(self) -> (r: Self)
        requires
            self@.results.len() <= self@.calls.len(),
        ensures
            r@ == with_rest_allowed(self@),
    {
        let mut this = self;
        let ghost before = this.results.deep_view();
        while this.results.len() < this.calls.len()
            invariant
                before == self@.results,
                before.len() <= this.results@.len() <= this.calls@.len(),
                this.turn == self.turn,
                this.reason == self.reason,
                this.calls == self.calls,
                forall|i: int|
                    0 <= i < this.results@.len() ==> #[trigger] this.results.deep_view()[i] == (
                    if i < before.len() {
                        before[i]
                    } else {
                        None
                    }),
            decreases this.calls@.len() - this.results@.len(),
        {
            let ghost so_far = this.results.deep_view();
            this.results.push(None);
            assert(this.results.deep_view() =~= so_far.push(None));
        }
        assert(this.results.deep_view() =~= with_rest_allowed(self@).results);
        this
    }

    /// Takes the result of a call.
    pub fn fill(self, i: usize, result: ToolResult) -> (r: Self)
        requires
            i < self@.results.len(),
        ensures
            r@ == with_result(self@, i as int, result@),
    {
        let mut this = self;
        let ghost before = this.results.deep_view();
        let ghost given = result@;
        this.results.set(i, Some(result));
        assert(this.results.deep_view() =~= before.update(i as int, Some(given)));
        this
    }

    /// The first call at or behind `from` with a result, or without.
    pub fn next(&self, from: usize, done: bool) -> (r: usize)
        requires
            from <= self@.results.len(),
        ensures
            r == next_call(self@.results, from as int, done),
            r <= self@.results.len(),
            r < self@.results.len() ==> (self@.results[r as int] is Some) == done,
    {
        let mut i: usize = from;
        while i < self.results.len()
            invariant
                from <= i <= self.results@.len(),
                next_call(self@.results, from as int, done) == next_call(
                    self@.results,
                    i as int,
                    done,
                ),
            decreases self.results@.len() - i,
        {
            assert(self@.results[i as int] == self.results@[i as int].deep_view());
            if self.results[i].is_some() == done {
                return i;
            }
            i = i + 1;
        }
        i
    }

    /// The calls that are to run.
    pub fn ready(&self) -> (r: Vec<ReadyCall>)
        requires
            self@.results.len() <= self@.calls.len(),
        ensures
            r.deep_view() == ready_list(self@, self@.results.len() as int),
    {
        let mut out: Vec<ReadyCall> = Vec::new();
        let mut i: usize = 0;
        assert(ready_list(self@, 0) =~= Seq::empty());
        while i < self.results.len()
            invariant
                i <= self.results@.len() <= self.calls@.len(),
                out.deep_view() == ready_list(self@, i as int),
            decreases self.results@.len() - i,
        {
            let ghost so_far = out.deep_view();
            assert(self@.results[i as int] == self.results@[i as int].deep_view());
            assert(self@.calls[i as int] == self.calls@[i as int]@);
            if self.results[i].is_none() {
                out.push(
                    ReadyCall {
                        index: i,
                        name: self.calls[i].name.clone(),
                        arguments: self.calls[i].arguments.clone(),
                    },
                );
                assert(out.deep_view() =~= so_far.push(
                    ready_call(i as int, self@.calls[i as int]),
                ));
                assert(ready_list(self@, i + 1) =~= so_far.push(
                    ready_call(i as int, self@.calls[i as int]),
                ));
            }
            i = i + 1;
        }
        out
    }

    /// The call at a place, to run.
    pub fn ready_at(&self, i: usize) -> (r: ReadyCall)
        requires
            i < self@.calls.len(),
        ensures
            r@ == ready_call(i as int, self@.calls[i as int]),
    {
        assert(self@.calls[i as int] == self.calls@[i as int]@);
        ReadyCall {
            index: i,
            name: self.calls[i].name.clone(),
            arguments: self.calls[i].arguments.clone(),
        }
    }

    /// What goes back to the model.
    pub fn blocks(&self) -> (r: Vec<ContentBlock>)
        requires
            self@.results.len() <= self@.calls.len(),
        ensures
            r.deep_view() == result_blocks(self@, self@.results.len() as int),
    {
        let mut out: Vec<ContentBlock> = Vec::new();
        let mut i: usize = 0;
        while i < self.results.len()
            invariant
                i <= self.results@.len() <= self.calls@.len(),
                out.deep_view() == result_blocks(self@, i as int),
            decreases self.results@.len() - i,
        {
            let ghost so_far = out.deep_view();
            assert(self@.results[i as int] == self.results@[i as int].deep_view());
            assert(self@.calls[i as int] == self.calls@[i as int]@);
            match &self.results[i] {
                Some(result) => {
                    out.push(
                        ContentBlock::ToolResult {
                            tool_use_id: self.calls[i].id.clone(),
                            content: result.content.clone(),
                            is_error: if result.is_error {
                                Some(true)
                            } else {
                                None
                            },
                        },
                    );
                    assert(out.deep_view() =~= so_far.push(
                        result_block(self@.calls[i as int], result@),
                    ));
                },
                None => {},
            }
            i = i + 1;
        }
        out
    }

    /// The event that tells of the result at a place.
    pub fn event_at(&self, i: usize) -> (r: AgentEvent)
        requires
            i < self@.results.len(),
            i < self@.calls.len(),
            self@.results[i as int] is Some,
        ensures
            r@ == result_event(self@.turn, self@.calls[i as int], self@.results[i as int]->0),
    {
        assert(self@.results[i as int] == self.results@[i as int].deep_view());
        assert(self@.calls[i as int] == self.calls@[i as int]@);
        let result = self.results[i].as_ref().unwrap();
        AgentEvent::ToolResult {
            turn: self.turn,
            id: self.calls[i].id.clone(),
            name: self.calls[i].name.clone(),
            content: result.content.clone(),
            is_error: result.is_error,
        }
    }

    /// What the hooks are told before the call at a place runs.
    pub fn pre_event_at(&self, i: usize) -> (r: HookEvent)
        requires
            i < self@.calls.len(),
        ensures
            r@ == pre_tool_event(self@.calls[i as int]),
    {
        assert(self@.calls[i as int] == self.calls@[i as int]@);
        HookEvent::PreToolUse {
            tool_use_id: self.calls[i].id.clone(),
            name: self.calls[i].name.clone(),
            arguments: self.calls[i].arguments.clone(),
        }
    }

    /// What the hooks are told of the result at a place.
    pub fn post_event_at(&self, i: usize) -> (r: HookEvent)
        requires
            i < self@.results.len(),
            i < self@.calls.len(),
            self@.results[i as int] is Some,
        ensures
            r@ == post_tool_event(self@.calls[i as int], self@.results[i as int]->0),
    {
        assert(self@.results[i as int] == self.results@[i as int].deep_view());
        assert(self@.calls[i as int] == self.calls@[i as int]@);
        let result = self.results[i].as_ref().unwrap();
        HookEvent::PostToolUse {
            tool_use_id: self.calls[i].id.clone(),
            name: self.calls[i].name.clone(),
            result: result.clone(),
        }
    }
}

/// What the hooks are told before a call runs.
pub open spec fn pre_tool_event(call: ToolUseView) -> HookEventView {
    HookEventView::PreToolUse { tool_use_id: call.id, name: call.name, arguments: call.arguments }
}

/// What the hooks are told of a result.
pub open spec fn post_tool_event(call: ToolUseView, r: ToolResultView) -> HookEventView {
    HookEventView::PostToolUse { tool_use_id: call.id, name: call.name, result: r }
}

/// A call may run only where it is allowed: every other verdict puts an error in the place of its
/// result, and so does a question that nobody can be asked.
pub proof fn law_only_allow_runs(name: Seq<char>, decision: DecisionView, can_ask: bool)
    ensures
        verdict(name, decision) is None <==> decision is Allow,
        verdict(name, decision) matches Some(r) ==> r.is_error,
        policy_gate(name, decision, can_ask) == PolicyGateView::Settled(None) <==> decision is Allow,
        decision is AskUser && !can_ask ==> (policy_gate(name, decision, can_ask)
            matches PolicyGateView::Settled(Some(r)) && r.is_error),
{
}

} // verus!
