//! The configuration of an agent, and the agent that comes of it.

use crate::agent::error::{AgentError, AgentErrorView};
use crate::agent::run_loop;
use crate::agent::run_loop::{AgentLoop, LoopConfig, LoopConfigView};
use crate::agent::session;
use crate::agent::session::{Session, SessionView};
use crate::agent::tool_run;
use crate::language_model::request::Temperature;
use crate::language_model::tool::{ToolChoice, ToolChoiceView, ToolSpec, ToolSpecView};
use crate::model;
use crate::text::{concat2, same_text};
use vstd::prelude::*;
use vstd::string::*;

verus! {

/// A configuration in the making.
#[derive(Debug, PartialEq, Eq)]
#[must_use]
pub struct AgentBuilder {
    model: Option<(String, String)>,
    tools: Vec<ToolSpec>,
    system: Option<String>,
    tool_choice: ToolChoice,
    temperature: Option<Temperature>,
    max_tokens: Option<u32>,
    max_turns: u32,
    parallel_tool_calls: bool,
    session: Option<Session>,
    hooks: usize,
    can_ask: bool,
    has_policy: bool,
    has_stop: bool,
}

/// Model of a configuration in the making.
#[verifier::ext_equal]
pub struct BuilderView {
    pub model: Option<(Seq<char>, Seq<char>)>,
    pub tools: Seq<ToolSpecView>,
    pub system: Option<Seq<char>>,
    pub tool_choice: ToolChoiceView,
    pub temperature: Option<Temperature>,
    pub max_tokens: Option<u32>,
    pub max_turns: u32,
    pub parallel_tool_calls: bool,
    pub session: Option<SessionView>,
    pub hooks: nat,
    pub can_ask: bool,
    pub has_policy: bool,
    pub has_stop: bool,
}

impl View for AgentBuilder {
    type V = BuilderView;

    closed spec fn view(&self) -> BuilderView {
        BuilderView {
            model: self.model.deep_view(),
            tools: self.tools.deep_view(),
            system: self.system.deep_view(),
            tool_choice: self.tool_choice@,
            temperature: self.temperature,
            max_tokens: self.max_tokens,
            max_turns: self.max_turns,
            parallel_tool_calls: self.parallel_tool_calls,
            session: self.session.deep_view(),
            hooks: self.hooks as nat,
            can_ask: self.can_ask,
            has_policy: self.has_policy,
            has_stop: self.has_stop,
        }
    }
}

/// The configuration that nothing was said about: 16 turns at most, tools of one turn at the same
/// time, and the model picks the tools. There is no permission policy, so every call may run, and no
/// stop condition, so only the end of the calls or the limit ends a run.
pub open spec fn new_builder() -> BuilderView {
    BuilderView {
        model: None,
        tools: Seq::empty(),
        system: None,
        tool_choice: ToolChoiceView::Auto,
        temperature: None,
        max_tokens: None,
        max_turns: 16,
        parallel_tool_calls: true,
        session: None,
        hooks: 0,
        can_ask: false,
        has_policy: false,
        has_stop: false,
    }
}

/// An agent: everything that its runs have in common.
#[derive(Debug, PartialEq, Eq)]
pub struct Agent {
    config: LoopConfig,
    default_session: Option<Session>,
}

/// Model of an agent. The input in the configuration is empty.
#[verifier::ext_equal]
pub struct AgentView {
    pub config: LoopConfigView,
    pub default_session: Option<SessionView>,
}

impl View for Agent {
    type V = AgentView;

    closed spec fn view(&self) -> AgentView {
        AgentView { config: self.config@, default_session: self.default_session.deep_view() }
    }
}

impl DeepView for Agent {
    type V = AgentView;

    open spec fn deep_view(&self) -> AgentView {
        self@
    }
}

/// The first name that an earlier tool has already.
pub open spec fn repeated_name(tools: Seq<ToolSpecView>) -> Option<Seq<char>>
    decreases tools.len(),
{
    if tools.len() == 0 {
        None
    } else {
        match repeated_name(tools.drop_last()) {
            Some(name) => Some(name),
            None => if tool_run::registered(tools.drop_last(), tools.last().name) {
                Some(tools.last().name)
            } else {
                None
            },
        }
    }
}

/// What comes of a configuration.
pub open spec fn built(b: BuilderView) -> Result<AgentView, AgentErrorView> {
    match b.model {
        None => Err(AgentErrorView::InvalidConfig("Agent requires a model (call .model(..))"@)),
        Some((provider_id, model_id)) => if b.max_turns == 0 {
            Err(AgentErrorView::InvalidConfig("max_turns must be >= 1"@))
        } else {
            match repeated_name(b.tools) {
                Some(name) => Err(
                    AgentErrorView::InvalidConfig("duplicate tool name registered: "@ + name),
                ),
                None => Ok(
                    AgentView {
                        config: LoopConfigView {
                            provider_id,
                            model_id,
                            tool_specs: b.tools,
                            system: b.system,
                            tool_choice: b.tool_choice,
                            temperature: b.temperature,
                            max_tokens: b.max_tokens,
                            max_turns: b.max_turns,
                            parallel_tool_calls: b.parallel_tool_calls,
                            hooks: b.hooks,
                            can_ask: b.can_ask,
                            has_policy: b.has_policy,
                            has_stop: b.has_stop,
                            initial_input: Seq::empty(),
                        },
                        default_session: b.session,
                    },
                ),
            }
        },
    }
}

/// Looks for a name that an earlier tool has already.
fn find_repeated(tools: &Vec<ToolSpec>) -> (r: Option<String>)
    ensures
        r.deep_view() == repeated_name(tools.deep_view()),
{
    let ghost all = tools.deep_view();
    let mut i: usize = 0;
    while i < tools.len()
        invariant
            i <= tools@.len(),
            all == tools.deep_view(),
            repeated_name(all.take(i as int)) is None,
        decreases tools@.len() - i,
    {
        assert(all[i as int] == tools@[i as int]@);
        assert(all.take(i + 1).drop_last() =~= all.take(i as int));
        let mut j: usize = 0;
        while j < i
            invariant
                j <= i < tools@.len(),
                all == tools.deep_view(),
                forall|k: int| 0 <= k < j ==> (#[trigger] all[k]).name != all[i as int].name,
                all.take(i + 1).drop_last() == all.take(i as int),
                repeated_name(all.take(i as int)) is None,
            decreases i - j,
        {
            assert(all[i as int] == tools@[i as int]@);
            assert(all[j as int] == tools@[j as int]@);
            if same_text(tools[j].name.as_str(), tools[i].name.as_str()) {
                proof {
                    assert(all.take(i as int)[j as int].name == all[i as int].name);
                    assert(repeated_name(all.take(i + 1)) == Some(all[i as int].name));
                    lemma_repeated_stays(all, i + 1);
                }
                return Some(tools[i].name.clone());
            }
            j = j + 1;
        }
        assert(!tool_run::registered(all.take(i as int), all[i as int].name));
        i = i + 1;
    }
    assert(all.take(i as int) =~= all);
    None
}

proof fn lemma_repeated_stays(tools: Seq<ToolSpecView>, n: int)
    requires
        0 <= n <= tools.len(),
        repeated_name(tools.take(n)) is Some,
    ensures
        repeated_name(tools) == repeated_name(tools.take(n)),
    decreases tools.len(),
{
    if n == tools.len() {
        assert(tools.take(n) =~= tools);
    } else {
        assert(tools.drop_last().take(n) =~= tools.take(n));
        lemma_repeated_stays(tools.drop_last(), n);
    }
}

impl Default for AgentBuilder {
    fn default() -> (r: Self)
        ensures
            r@ == new_builder(),
    {
        AgentBuilder::new()
    }
}

impl AgentBuilder {
    /// A configuration that nothing was said about.
    pub fn new() -> (r: Self)
        ensures
            r@ == new_builder(),
    {
        AgentBuilder {
            model: None,
            tools: Vec::new(),
            system: None,
            tool_choice: ToolChoice::Auto,
            temperature: None,
            max_tokens: None,
            max_turns: 16,
            parallel_tool_calls: true,
            session: None,
            hooks: 0,
            can_ask: false,
            has_policy: false,
            has_stop: false,
        }
    }

    /// Sets the model, by its provider and its name. Required.
    pub fn model(self, provider_id: String, model_id: String) -> (r: Self)
        ensures
            r@ == (BuilderView { model: Some((provider_id@, model_id@)), ..self@ }),
    {
        let mut this = self;
        this.model = Some((provider_id, model_id));
        this
    }

    /// Sets the system prompt.
    pub fn system(self, system: String) -> (r: Self)
        ensures
            r@ == (BuilderView { system: Some(system@), ..self@ }),
    {
        let mut this = self;
        this.system = Some(system);
        this
    }

    /// Adds a tool.
    pub fn tool(self, tool: ToolSpec) -> (r: Self)
        ensures
            r@ == (BuilderView { tools: self@.tools.push(tool@), ..self@ }),
    {
        let mut this = self;
        let ghost before = this.tools.deep_view();
        let ghost added = tool@;
        this.tools.push(tool);
        assert(this.tools.deep_view() =~= before.push(added));
        this
    }

    /// Sets the tools.
    pub fn tools(self, tools: Vec<ToolSpec>) -> (r: Self)
        ensures
            r@ == (BuilderView { tools: tools.deep_view(), ..self@ }),
    {
        let mut this = self;
        this.tools = tools;
        this
    }

    /// Sets how the model is to pick tools.
    pub fn tool_choice(self, choice: ToolChoice) -> (r: Self)
        ensures
            r@ == (BuilderView { tool_choice: choice@, ..self@ }),
    {
        let mut this = self;
        this.tool_choice = choice;
        this
    }

    /// Sets the sampling temperature.
    pub fn temperature(self, temperature: Temperature) -> (r: Self)
        ensures
            r@ == (BuilderView { temperature: Some(temperature), ..self@ }),
    {
        let mut this = self;
        this.temperature = Some(temperature);
        this
    }

    /// Sets the upper bound on output tokens per turn.
    pub fn max_tokens(self, max_tokens: u32) -> (r: Self)
        ensures
            r@ == (BuilderView { max_tokens: Some(max_tokens), ..self@ }),
    {
        let mut this = self;
        this.max_tokens = Some(max_tokens);
        this
    }

    /// Sets the limit of turns.
    pub fn max_turns(self, max_turns: u32) -> (r: Self)
        ensures
            r@ == (BuilderView { max_turns, ..self@ }),
    {
        let mut this = self;
        this.max_turns = max_turns;
        this
    }

    /// Sets whether the tools of one turn run at the same time.
    pub fn parallel_tool_calls(self, parallel: bool) -> (r: Self)
        ensures
            r@ == (BuilderView { parallel_tool_calls: parallel, ..self@ }),
    {
        let mut this = self;
        this.parallel_tool_calls = parallel;
        this
    }

    /// Sets the conversation with which runs start.
    pub fn session(self, session: Session) -> (r: Self)
        ensures
            r@ == (BuilderView { session: Some(session@), ..self@ }),
    {
        let mut this = self;
        this.session = Some(session);
        this
    }

    /// Sets the number of hooks.
    pub fn hooks(self, hooks: usize) -> (r: Self)
        ensures
            r@ == (BuilderView { hooks: hooks as nat, ..self@ }),
    {
        let mut this = self;
        this.hooks = hooks;
        this
    }

    /// Says that there is a permission policy. Without one every call may run.
    pub fn permission(self) -> (r: Self)
        ensures
            r@ == (BuilderView { has_policy: true, ..self@ }),
    {
        let mut this = self;
        this.has_policy = true;
        this
    }

    /// Says that there is a stop condition. Without one nothing but the limit of turns stops a run
    /// that calls tools.
    pub fn stop_when(self) -> (r: Self)
        ensures
            r@ == (BuilderView { has_stop: true, ..self@ }),
    {
        let mut this = self;
        this.has_stop = true;
        this
    }

    /// Says that the user can be asked.
    pub fn permission_ask(self) -> (r: Self)
        ensures
            r@ == (BuilderView { can_ask: true, ..self@ }),
    {
        let mut this = self;
        this.can_ask = true;
        this
    }

    /// Checks the configuration and makes an agent of it.
    pub fn build(self) -> (r: Result<Agent, AgentError>)
        ensures
            model::result_view(r) == built(self@),
    {
        let (provider_id, model_id) = match self.model {
            Some(ids) => ids,
            None => {
                return Err(
                    AgentError::InvalidConfig(
                        "Agent requires a model (call .model(..))".to_owned(),
                    ),
                );
            },
        };
        if self.max_turns == 0 {
            return Err(AgentError::InvalidConfig("max_turns must be >= 1".to_owned()));
        }
        match find_repeated(&self.tools) {
            Some(name) => {
                return Err(
                    AgentError::InvalidConfig(
                        concat2("duplicate tool name registered: ", name.as_str()),
                    ),
                );
            },
            None => {},
        }
        Ok(
            Agent {
                config: LoopConfig {
                    provider_id,
                    model_id,
                    tool_specs: self.tools,
                    system: self.system,
                    tool_choice: self.tool_choice,
                    temperature: self.temperature,
                    max_tokens: self.max_tokens,
                    max_turns: self.max_turns,
                    parallel_tool_calls: self.parallel_tool_calls,
                    hooks: self.hooks,
                    can_ask: self.can_ask,
                    has_policy: self.has_policy,
                    has_stop: self.has_stop,
                    initial_input: String::new(),
                },
                default_session: self.session,
            },
        )
    }
}

impl Agent {
    /// A configuration that nothing was said about.
    pub fn builder() -> (r: AgentBuilder)
        ensures
            r@ == new_builder(),
    {
        AgentBuilder::new()
    }

    /// A run with this input, before its first step. An empty input continues the conversation as
    /// it stands.
    pub fn start(&self, input: String) -> (r: AgentLoop)
        ensures
            r@ == run_loop::new_loop(
                (LoopConfigView { initial_input: input@, ..self@.config }),
                session::run_session(self@.default_session, input@),
            ),
    {
        let tool_specs = self.config.tool_specs.clone();
        assert(tool_specs.deep_view() =~= self.config.tool_specs.deep_view());
        let seed = match &self.default_session {
            Some(s) => Some(s.clone()),
            None => None,
        };
        let session = Session::for_run(seed, input.as_str());
        let config = LoopConfig {
            provider_id: self.config.provider_id.clone(),
            model_id: self.config.model_id.clone(),
            tool_specs,
            system: self.config.system.clone(),
            tool_choice: self.config.tool_choice.clone(),
            temperature: self.config.temperature,
            max_tokens: self.config.max_tokens,
            max_turns: self.config.max_turns,
            parallel_tool_calls: self.config.parallel_tool_calls,
            hooks: self.config.hooks,
            can_ask: self.config.can_ask,
            has_policy: self.config.has_policy,
            has_stop: self.config.has_stop,
            initial_input: input,
        };
        AgentLoop::new(config, session)
    }
}

/// An agent has at least one turn, and no two tools of one name.
pub proof fn law_agent_is_usable(b: BuilderView)
    ensures
        match built(b) {
            Ok(agent) => {
                &&& agent.config.max_turns >= 1
                &&& forall|i: int, j: int|
                    0 <= i < j < agent.config.tool_specs.len() ==> (
                    #[trigger] agent.config.tool_specs[i]).name != (
                    #[trigger] agent.config.tool_specs[j]).name
            },
            Err(e) => e is InvalidConfig,
        },
{
    if repeated_name(b.tools) is None {
        lemma_no_repeats(b.tools);
    }
}

proof fn lemma_no_repeats(tools: Seq<ToolSpecView>)
    requires
        repeated_name(tools) is None,
    ensures
        forall|i: int, j: int|
            0 <= i < j < tools.len() ==> (#[trigger] tools[i]).name != (#[trigger] tools[j]).name,
    decreases tools.len(),
{
    if tools.len() > 0 {
        let front = tools.drop_last();
        lemma_no_repeats(front);
        assert forall|i: int, j: int| 0 <= i < j < tools.len() implies (#[trigger] tools[i]).name != (
        #[trigger] tools[j]).name by {
            assert(front[i] == tools[i]);
            if j < front.len() {
                assert(front[j] == tools[j]);
            }
        }
    }
}

} // verus!
