//! Whole runs, with scripted models, tools, hooks and policies.

use agent_sdk::agent::builder::{Agent, AgentBuilder};
use agent_sdk::agent::error::AgentError;
use agent_sdk::agent::event::{AgentEvent, RunOutput};
use agent_sdk::agent::hook::{HookCtx, HookEvent, HookOutcome};
use agent_sdk::agent::permission::{AllowAll, AllowList, Decision, DenyList};
use agent_sdk::agent::run_loop::{AgentLoop, Reply, Step};
use agent_sdk::agent::session::Session;
use agent_sdk::agent::stop::{stop_count_is, Never, StopCondition};
use agent_sdk::agent::tool::ToolResult;
use agent_sdk::json::Json;
use agent_sdk::language_model::error::ModelError;
use agent_sdk::language_model::event::{FinishReason, LanguageModelEvent, Usage};
use agent_sdk::language_model::message::{ContentBlock, Message, Role};
use agent_sdk::language_model::request::LanguageModelRequest;
use agent_sdk::language_model::tool::ToolSpec;

fn s(text: &str) -> String {
    text.to_string()
}

fn json(text: &str) -> Json {
    Json::parse(text).unwrap()
}

fn finish(reason: FinishReason) -> LanguageModelEvent {
    LanguageModelEvent::Finish {
        reason,
        usage: Usage { input_tokens: 2, output_tokens: 1, cached_input_tokens: 0 },
    }
}

fn text_turn(text: &str) -> Vec<LanguageModelEvent> {
    vec![LanguageModelEvent::TextDelta { delta: s(text) }, finish(FinishReason::Stop)]
}

fn tool_turn(id: &str, name: &str, args: &str) -> Vec<LanguageModelEvent> {
    let args = json(args).to_text();
    let mid = args.len() / 2;
    let (left, right) = args.split_at(mid);
    vec![
        LanguageModelEvent::ToolCallStart { id: s(id), name: s(name) },
        LanguageModelEvent::ToolCallDelta { id: s(id), arguments_delta: s(left) },
        LanguageModelEvent::ToolCallDelta { id: s(id), arguments_delta: s(right) },
        LanguageModelEvent::ToolCallEnd { id: s(id), arguments: None },
        finish(FinishReason::ToolUse),
    ]
}

fn multi_tool_turn(calls: &[(&str, &str, &str)]) -> Vec<LanguageModelEvent> {
    let mut events = Vec::new();
    for (id, name, args) in calls {
        events.push(LanguageModelEvent::ToolCallStart { id: s(id), name: s(name) });
        events.push(LanguageModelEvent::ToolCallEnd { id: s(id), arguments: Some(json(args)) });
    }
    events.push(finish(FinishReason::ToolUse));
    events
}

/// What a run meets outside of it.
struct World {
    turns: Vec<Vec<LanguageModelEvent>>,
    open_error: Option<ModelError>,
    hooks: Vec<Box<dyn FnMut(HookCtx) -> HookOutcome>>,
    tool: Box<dyn FnMut(&str, &Json) -> Result<ToolResult, AgentError>>,
    policy: Box<dyn Fn(&str, &Json) -> Decision>,
    user: Decision,
    stop: Box<dyn StopCondition>,
    /// The number of polls after which the run is cancelled.
    cancel_after: Option<usize>,
    /// Whether the run is cancelled while a tool runs.
    cancel_in_tool: bool,
    /// The order in which tools that run at the same time are done.
    last_first: bool,
    /// The number of events that the caller takes.
    takes: usize,
    requests: Vec<LanguageModelRequest>,
    ran: Vec<String>,
    asked: Vec<String>,
    spawned: usize,
    events: Vec<AgentEvent>,
    session: Session,
}

impl World {
    fn new(turns: Vec<Vec<LanguageModelEvent>>) -> World {
        World {
            turns,
            open_error: None,
            hooks: Vec::new(),
            tool: Box::new(|_, args| Ok(ToolResult::json(args.clone()))),
            policy: Box::new(|name, args| AllowAll.check(name, args)),
            user: Decision::Allow,
            stop: Box::new(Never),
            cancel_after: None,
            cancel_in_tool: false,
            last_first: false,
            takes: usize::MAX,
            requests: Vec::new(),
            ran: Vec::new(),
            asked: Vec::new(),
            spawned: 0,
            events: Vec::new(),
            session: Session::default(),
        }
    }

    fn run(&mut self, agent: &Agent, input: &str) -> Result<RunOutput, AgentError> {
        let mut moved = agent.start(s(input)).resume(Reply::Begin);
        let mut stream = Vec::new();
        let mut polls: usize = 0;
        let mut pending: Vec<Reply> = Vec::new();
        loop {
            let cancelled = self.cancel_after.map_or(false, |n| polls >= n);
            let reply = match moved.step {
                Step::CallHook { index, ctx } => Reply::Hook((self.hooks[index])(ctx)),
                Step::CheckCancel => Reply::CancelState(cancelled),
                Step::OpenModel { request } => {
                    self.requests.push(request);
                    match self.open_error.take() {
                        Some(e) => Reply::Opened(Err(e)),
                        None => {
                            stream = self.turns.remove(0);
                            Reply::Opened(Ok(()))
                        }
                    }
                }
                Step::PollModel => {
                    polls += 1;
                    if cancelled {
                        Reply::Cancelled
                    } else if stream.is_empty() {
                        Reply::StreamEnd
                    } else {
                        Reply::Event(Ok(stream.remove(0)))
                    }
                }
                Step::Emit { event } => {
                    let taken = self.events.len() < self.takes;
                    if taken {
                        self.events.push(event);
                    }
                    Reply::Sent(taken)
                }
                Step::CheckPermission { name, arguments } => {
                    Reply::Permission((self.policy)(&name, &arguments))
                }
                Step::AskUser { prompt } => {
                    self.asked.push(prompt);
                    Reply::Permission(self.user.clone())
                }
                Step::RunTool { call } => {
                    if self.cancel_in_tool {
                        Reply::Cancelled
                    } else {
                        self.ran.push(call.name.clone());
                        Reply::ToolReturned((self.tool)(&call.name, &call.arguments))
                    }
                }
                Step::SpawnTools { calls } => {
                    self.spawned = calls.len();
                    for call in calls {
                        self.ran.push(call.name.clone());
                        let result = (self.tool)(&call.name, &call.arguments);
                        pending.push(Reply::Joined { index: call.index, result });
                    }
                    if self.last_first {
                        pending.reverse();
                    }
                    pending.remove(0)
                }
                Step::JoinTool => {
                    if pending.is_empty() {
                        Reply::AllJoined
                    } else {
                        pending.remove(0)
                    }
                }
                Step::EvaluateStop { state } => Reply::Stop(self.stop.should_stop(&state)),
                Step::Done { result } => {
                    self.session = moved.run.session().clone();
                    let mut out = RunOutput::new();
                    for event in &self.events {
                        out.collect(event.clone());
                    }
                    return result.map(|()| out);
                }
                Step::Unexpected => panic!("the run did not expect this reply"),
            };
            moved = moved.run.resume(reply);
        }
    }
}

fn plain_agent_with(tools: &[&str]) -> AgentBuilder {
    let mut builder = Agent::builder().model(s("fixture"), s("fixture-1"));
    for name in tools {
        builder = builder.tool(ToolSpec::new(s(name), s("d"), json("{\"type\":\"object\"}")));
    }
    builder
}

/// With the policy and the stop condition of the world.
fn agent_with(tools: &[&str]) -> AgentBuilder {
    plain_agent_with(tools).permission().stop_when()
}

#[test]
fn run_gives_the_text() {
    let agent = agent_with(&[]).build().expect("build");
    let out = World::new(vec![text_turn("hello world")]).run(&agent, "hi").expect("run");
    assert_eq!(out.text, "hello world");
    assert_eq!(out.turns, 1);
    assert_eq!(out.reason, FinishReason::Stop);
}

#[test]
fn tool_round_trip() {
    let mut world = World::new(vec![
        tool_turn("toolu_1", "echo", "{\"text\":\"ping\"}"),
        text_turn("done: ping"),
    ]);
    let agent = agent_with(&["echo"]).build().expect("build");
    let out = world.run(&agent, "please").expect("run");
    assert_eq!(out.text, "done: ping");
    assert_eq!(out.turns, 2);
    assert_eq!(out.usage, Usage { input_tokens: 4, output_tokens: 2, cached_input_tokens: 0 });
    assert_eq!(world.ran, vec![s("echo")]);
    let messages = &world.requests[1].messages;
    assert_eq!(messages.len(), 3);
    assert_eq!(messages[0], Message::user(s("please")));
    assert_eq!(messages[1].role, Role::Assistant);
    assert_eq!(
        messages[2],
        Message::new(
            Role::Tool,
            vec![ContentBlock::ToolResult {
                tool_use_id: s("toolu_1"),
                content: json("{\"text\":\"ping\"}"),
                is_error: None,
            }]
        )
    );
    assert_eq!(world.session.messages.len(), 4);
    assert_eq!(world.requests[0].tools.len(), 1);
}

#[test]
fn turns_are_counted() {
    let mut world = World::new(vec![
        tool_turn("a", "spin", "{}"),
        tool_turn("b", "spin", "{}"),
        text_turn("done"),
    ]);
    let agent = agent_with(&["spin"]).build().expect("build");
    world.run(&agent, "go").expect("run");
    let ends: Vec<(u32, FinishReason)> = world
        .events
        .iter()
        .filter_map(|e| match e {
            AgentEvent::TurnEnd { turn, reason, .. } => Some((*turn, *reason)),
            _ => None,
        })
        .collect();
    assert_eq!(
        ends,
        vec![(0, FinishReason::ToolUse), (1, FinishReason::ToolUse), (2, FinishReason::Stop)]
    );
    assert_eq!(world.requests.len(), 3);
    let finishes = world.events.iter().filter(|e| matches!(e, AgentEvent::Finish { .. })).count();
    assert_eq!(finishes, 1);
    assert_eq!(
        world.events.last(),
        Some(&AgentEvent::Finish {
            turns: 3,
            reason: FinishReason::Stop,
            usage: Usage { input_tokens: 6, output_tokens: 3, cached_input_tokens: 0 },
        })
    );
}

#[test]
fn the_limit_of_turns_is_an_error() {
    let mut world = World::new(vec![
        tool_turn("a", "spin", "{}"),
        tool_turn("b", "spin", "{}"),
        tool_turn("c", "spin", "{}"),
    ]);
    let agent = agent_with(&["spin"]).max_turns(2).build().expect("build");
    let err = world.run(&agent, "go").expect_err("should error");
    assert!(matches!(err, AgentError::MaxTurns(2)), "got {err:?}");
    assert_eq!(world.requests.len(), 2);
    assert_eq!(
        world.events.last(),
        Some(&AgentEvent::Error { message: s("reached max_turns (2)") })
    );
}

#[test]
fn arguments_that_are_not_json_end_the_run() {
    let mut world = World::new(vec![vec![
        LanguageModelEvent::ToolCallStart { id: s("id1"), name: s("echo") },
        LanguageModelEvent::ToolCallDelta { id: s("id1"), arguments_delta: s("{not") },
        LanguageModelEvent::ToolCallEnd { id: s("id1"), arguments: None },
        finish(FinishReason::ToolUse),
    ]]);
    let agent = agent_with(&["echo"]).build().expect("build");
    match world.run(&agent, "hi") {
        Err(AgentError::InvalidToolArguments { name, .. }) => assert_eq!(name, "echo"),
        other => panic!("expected InvalidToolArguments, got {other:?}"),
    }
    assert!(world.ran.is_empty());
}

fn counting_hook(seen: std::sync::Arc<std::sync::Mutex<Vec<(String, u32)>>>) -> Box<dyn FnMut(HookCtx) -> HookOutcome> {
    Box::new(move |ctx: HookCtx| {
        let name = match ctx.event {
            HookEvent::UserPromptSubmit { .. } => "user_prompt",
            HookEvent::PreModel { .. } => "pre_model",
            HookEvent::PostModel { .. } => "post_model",
            HookEvent::PreToolUse { .. } => "pre_tool",
            HookEvent::PostToolUse { .. } => "post_tool",
            HookEvent::OnFinish { .. } => "on_finish",
            HookEvent::OnError { .. } => "on_error",
        };
        assert_eq!(ctx.provider_id, "fixture");
        assert_eq!(ctx.model_id, "fixture-1");
        assert_eq!(ctx.session_id, None);
        seen.lock().unwrap().push((s(name), ctx.turn));
        HookOutcome::Continue
    })
}

#[test]
fn every_transition_calls_the_hooks() {
    let mut world = World::new(vec![
        multi_tool_turn(&[("u1", "echo", "{\"text\":\"ping\"}")]),
        text_turn("done"),
    ]);
    let seen = std::sync::Arc::new(std::sync::Mutex::new(Vec::new()));
    world.hooks.push(counting_hook(seen.clone()));
    let agent = agent_with(&["echo"]).hooks(1).build().expect("build");
    let out = world.run(&agent, "hi").expect("run");
    assert_eq!(out.text, "done");
    let seen: Vec<(String, u32)> = seen.lock().unwrap().clone();
    let want: Vec<(String, u32)> = [
        ("user_prompt", 0),
        ("pre_model", 0),
        ("post_model", 0),
        ("pre_tool", 0),
        ("post_tool", 0),
        ("pre_model", 1),
        ("post_model", 1),
        ("on_finish", 2),
    ]
    .iter()
    .map(|(n, t)| (s(n), *t))
    .collect();
    assert_eq!(seen, want);
}

#[test]
fn every_hook_hears_of_an_error_at_its_turn() {
    let mut world = World::new(vec![
        multi_tool_turn(&[("u1", "echo", "{}")]),
        vec![LanguageModelEvent::Error { message: s("boom") }],
    ]);
    let seen = std::sync::Arc::new(std::sync::Mutex::new(Vec::new()));
    world.hooks.push(counting_hook(seen.clone()));
    world.hooks.push(Box::new(|ctx| match ctx.event {
        HookEvent::OnError { .. } => HookOutcome::Halt(s("ignored")),
        _ => HookOutcome::Continue,
    }));
    world.hooks.push(counting_hook(seen.clone()));
    let agent = agent_with(&["echo"]).hooks(3).build().expect("build");
    let err = world.run(&agent, "hi").expect_err("boom");
    assert_eq!(err, AgentError::Provider(ModelError::Other(s("boom"))));
    let errors: Vec<u32> = seen
        .lock()
        .unwrap()
        .iter()
        .filter(|(n, _)| n == "on_error")
        .map(|(_, t)| *t)
        .collect();
    assert_eq!(errors, vec![1, 1]);
    assert_eq!(
        world.events.last(),
        Some(&AgentEvent::Error { message: s("provider error: boom") })
    );
}

fn error_turns(seen: &std::sync::Mutex<Vec<(String, u32)>>) -> Vec<u32> {
    let seen = seen.lock().unwrap();
    seen.iter().filter(|(n, _)| n == "on_error").map(|(_, t)| *t).collect()
}

#[test]
fn an_error_of_the_tools_is_told_with_the_turn_that_called_them() {
    // A tool that is not registered, in the first turn and in the second.
    for first in [Vec::new(), vec![multi_tool_turn(&[("u1", "echo", "{}")])]] {
        let turn = first.len() as u32;
        let mut turns: Vec<Vec<LanguageModelEvent>> = first;
        turns.push(multi_tool_turn(&[("u2", "ghost", "{}")]));
        let mut world = World::new(turns);
        let seen = std::sync::Arc::new(std::sync::Mutex::new(Vec::new()));
        world.hooks.push(counting_hook(seen.clone()));
        let agent = agent_with(&["echo"]).hooks(1).build().expect("build");
        world.run(&agent, "hi").expect_err("not registered");
        assert_eq!(error_turns(&seen), vec![turn]);
    }
    // A tool that fails.
    let mut world = World::new(vec![multi_tool_turn(&[("u1", "echo", "{}")])]);
    world.tool = Box::new(|_, _| Err(AgentError::Other(s("broken"))));
    let seen = std::sync::Arc::new(std::sync::Mutex::new(Vec::new()));
    world.hooks.push(counting_hook(seen.clone()));
    let agent = agent_with(&["echo"]).hooks(1).build().expect("build");
    world.run(&agent, "hi").expect_err("broken");
    assert_eq!(error_turns(&seen), vec![0]);
    // The limit is reached after the turn.
    let mut world = World::new(vec![multi_tool_turn(&[("u1", "echo", "{}")])]);
    let seen = std::sync::Arc::new(std::sync::Mutex::new(Vec::new()));
    world.hooks.push(counting_hook(seen.clone()));
    let agent = agent_with(&["echo"]).hooks(1).max_turns(1).build().expect("build");
    world.run(&agent, "hi").expect_err("limit");
    assert_eq!(error_turns(&seen), vec![1]);
}

/// A world whose policy and stop condition must not be asked.
fn unasked_world(turns: Vec<Vec<LanguageModelEvent>>) -> World {
    let mut world = World::new(turns);
    world.policy = Box::new(|_, _| panic!("no policy was given"));
    world.stop = Box::new(stop_count_is(1));
    world
}

#[test]
fn without_a_policy_every_call_runs() {
    for parallel in [true, false] {
        let mut world = unasked_world(three_calls());
        let agent = plain_agent_with(&["tag"])
            .parallel_tool_calls(parallel)
            .build()
            .expect("build");
        world.run(&agent, "go").expect("run");
        assert_eq!(world.ran.len(), 3);
        assert_eq!(world.spawned, if parallel { 3 } else { 0 });
        assert_eq!(result_ids(&world), vec![s("a"), s("b"), s("c")]);
        assert_eq!(world.requests.len(), 2);
    }
}

#[test]
fn without_a_policy_the_hooks_still_refuse() {
    let mut world = unasked_world(three_calls());
    world.hooks.push(Box::new(|ctx| match ctx.event {
        HookEvent::PreToolUse { tool_use_id, .. } if tool_use_id == "b" => {
            HookOutcome::Deny(s("no"))
        }
        _ => HookOutcome::Continue,
    }));
    let agent = plain_agent_with(&["tag"]).hooks(1).build().expect("build");
    world.run(&agent, "go").expect("run");
    assert_eq!(world.spawned, 2);
    assert_eq!(result_ids(&world), vec![s("a"), s("b"), s("c")]);
}

#[test]
fn without_a_stop_condition_only_the_limit_ends_a_run() {
    let turns = || vec![tool_turn("a", "spin", "{}"), tool_turn("b", "spin", "{}")];
    let mut world = unasked_world(turns());
    let agent = plain_agent_with(&["spin"]).max_turns(2).build().expect("build");
    let err = world.run(&agent, "go").expect_err("limit");
    assert_eq!(err, AgentError::MaxTurns(2));
    assert_eq!(world.requests.len(), 2);
    let mut world = unasked_world(turns());
    let agent = plain_agent_with(&["spin"]).stop_when().max_turns(2).build().expect("build");
    let out = world.run(&agent, "go").expect("stopped");
    assert_eq!(out.turns, 1);
}

#[test]
fn a_run_without_input_has_no_prompt_to_tell() {
    let mut seed = Session::new(s(""));
    seed.push(Message::user(s("earlier")));
    let mut world = World::new(vec![text_turn("done")]);
    let seen = std::sync::Arc::new(std::sync::Mutex::new(Vec::new()));
    world.hooks.push(counting_hook(seen.clone()));
    let agent = agent_with(&[]).hooks(1).session(seed).build().expect("build");
    world.run(&agent, "").expect("run");
    assert_eq!(seen.lock().unwrap()[0].0, "pre_model");
    assert_eq!(world.requests[0].messages, vec![Message::user(s("earlier"))]);
}

#[test]
fn a_hook_that_denies_a_tool_stands_in_for_its_result() {
    let mut world = World::new(vec![
        multi_tool_turn(&[("u1", "echo", "{\"text\":\"ping\"}")]),
        text_turn("after-deny"),
    ]);
    world.hooks.push(Box::new(|ctx| match ctx.event {
        HookEvent::PreToolUse { .. } => HookOutcome::Deny(s("hook says no")),
        _ => HookOutcome::Continue,
    }));
    let agent = agent_with(&["echo"]).hooks(1).build().expect("build");
    let out = world.run(&agent, "go").expect("run");
    assert_eq!(out.text, "after-deny");
    assert!(world.ran.is_empty());
    assert_eq!(
        world.requests[1].messages[2].content[0],
        ContentBlock::ToolResult {
            tool_use_id: s("u1"),
            content: Json::Text(s("hook denied tool 'echo': hook says no")),
            is_error: Some(true),
        }
    );
}

#[test]
fn a_hook_rewrites_the_request() {
    let mut world = World::new(vec![text_turn("hi")]);
    world.hooks.push(Box::new(|ctx| match ctx.event {
        HookEvent::PreModel { request } => {
            let mut request = request;
            request.system = Some(s("rewritten"));
            HookOutcome::ModifyRequest(Box::new(request))
        }
        _ => HookOutcome::Continue,
    }));
    let agent = agent_with(&[]).system(s("original")).hooks(1).build().expect("build");
    world.run(&agent, "hello").expect("run");
    assert_eq!(world.requests[0].system, Some(s("rewritten")));
}

#[test]
fn a_hook_halts_the_run_before_the_model() {
    let mut world = World::new(vec![text_turn("never")]);
    world.hooks.push(Box::new(|ctx| match ctx.event {
        HookEvent::PreModel { .. } => HookOutcome::Halt(s("halt-now")),
        _ => HookOutcome::Continue,
    }));
    let agent = agent_with(&[]).hooks(1).build().expect("build");
    let err = world.run(&agent, "hi").expect_err("halt -> error");
    assert!(matches!(err, AgentError::HookHalt(ref m) if m == "halt-now"), "got {err:?}");
    assert!(world.requests.is_empty());
}

#[test]
fn a_denied_tool_does_not_run() {
    let mut world = World::new(vec![
        multi_tool_turn(&[("u1", "echo", "{\"text\":\"ping\"}")]),
        text_turn("after-deny"),
    ]);
    let deny = DenyList::new(vec![s("echo")]);
    world.policy = Box::new(move |name, args| deny.check(name, args));
    let agent = agent_with(&["echo"]).build().expect("build");
    let out = world.run(&agent, "go").expect("run");
    assert_eq!(out.text, "after-deny");
    assert_eq!(out.turns, 2);
    assert!(world.ran.is_empty());
    assert_eq!(
        world.requests[1].messages[2].content[0],
        ContentBlock::ToolResult {
            tool_use_id: s("u1"),
            content: Json::Text(s("permission denied for 'echo': tool 'echo' is in deny list")),
            is_error: Some(true),
        }
    );
}

fn asking_world() -> World {
    let mut world = World::new(vec![
        multi_tool_turn(&[("u1", "echo", "{\"text\":\"ping\"}")]),
        text_turn("done"),
    ]);
    let allow = AllowList::new(Vec::new());
    world.policy = Box::new(move |name, args| allow.check(name, args));
    world
}

#[test]
fn the_user_allows() {
    let mut world = asking_world();
    let agent = agent_with(&["echo"]).permission_ask().build().expect("build");
    let out = world.run(&agent, "go").expect("run");
    assert_eq!(out.text, "done");
    assert_eq!(out.turns, 2);
    assert_eq!(world.asked, vec![s("Allow tool 'echo'?")]);
    assert_eq!(world.ran, vec![s("echo")]);
}

#[test]
fn the_user_denies() {
    let mut world = asking_world();
    world.user = Decision::Deny(s("user said no"));
    let agent = agent_with(&["echo"]).permission_ask().build().expect("build");
    let out = world.run(&agent, "go").expect("run");
    assert_eq!(out.text, "done");
    assert!(world.ran.is_empty());
    assert_eq!(
        world.requests[1].messages[2].content[0],
        ContentBlock::ToolResult {
            tool_use_id: s("u1"),
            content: Json::Text(s("permission denied for 'echo': user said no")),
            is_error: Some(true),
        }
    );
}

#[test]
fn nobody_to_ask_is_a_denial() {
    let mut world = asking_world();
    let agent = agent_with(&["echo"]).build().expect("build");
    let out = world.run(&agent, "go").expect("run");
    assert_eq!(out.turns, 2);
    assert!(world.asked.is_empty());
    assert!(world.ran.is_empty());
}

#[test]
fn a_user_who_asks_back_is_a_denial() {
    let mut world = asking_world();
    world.user = Decision::AskUser { prompt: s("really?") };
    let agent = agent_with(&["echo"]).permission_ask().build().expect("build");
    world.run(&agent, "go").expect("run");
    assert!(world.ran.is_empty());
    assert_eq!(
        world.requests[1].messages[2].content[0],
        ContentBlock::ToolResult {
            tool_use_id: s("u1"),
            content: Json::Text(s("permission policy left AskUser unresolved for 'echo': really?")),
            is_error: Some(true),
        }
    );
}

fn three_calls() -> Vec<Vec<LanguageModelEvent>> {
    vec![
        multi_tool_turn(&[
            ("a", "tag", "{\"v\":1}"),
            ("b", "tag", "{\"v\":2}"),
            ("c", "tag", "{\"v\":3}"),
        ]),
        text_turn("ok"),
    ]
}

fn result_ids(world: &World) -> Vec<String> {
    world
        .events
        .iter()
        .filter_map(|e| match e {
            AgentEvent::ToolResult { id, .. } => Some(id.clone()),
            _ => None,
        })
        .collect()
}

#[test]
fn results_are_in_call_order_whichever_tool_is_first() {
    for last_first in [false, true] {
        let mut world = World::new(three_calls());
        world.last_first = last_first;
        let agent = agent_with(&["tag"]).build().expect("build");
        let out = world.run(&agent, "go").expect("run");
        assert_eq!(out.text, "ok");
        assert_eq!(world.spawned, 3);
        assert_eq!(result_ids(&world), vec![s("a"), s("b"), s("c")]);
        let contents: Vec<ContentBlock> = world.requests[1].messages[2].content.clone();
        assert_eq!(contents.len(), 3);
        assert_eq!(
            contents[1],
            ContentBlock::ToolResult {
                tool_use_id: s("b"),
                content: json("{\"v\":2}"),
                is_error: None,
            }
        );
    }
}

#[test]
fn tools_run_one_by_one_where_that_is_wanted() {
    let mut world = World::new(three_calls());
    let agent = agent_with(&["tag"]).parallel_tool_calls(false).build().expect("build");
    world.run(&agent, "go").expect("run");
    assert_eq!(world.spawned, 0);
    assert_eq!(world.ran.len(), 3);
    assert_eq!(result_ids(&world), vec![s("a"), s("b"), s("c")]);
}

#[test]
fn only_the_allowed_calls_run() {
    let mut world = World::new(three_calls());
    world.policy = Box::new(|_, args| {
        if *args == json("{\"v\":2}") {
            Decision::Deny(s("no"))
        } else {
            Decision::Allow
        }
    });
    let agent = agent_with(&["tag"]).build().expect("build");
    world.run(&agent, "go").expect("run");
    assert_eq!(world.spawned, 2);
    assert_eq!(result_ids(&world), vec![s("a"), s("b"), s("c")]);
}

#[test]
fn a_tool_that_is_not_registered_ends_the_run() {
    let mut world = World::new(three_calls());
    let agent = agent_with(&["other"]).build().expect("build");
    assert_eq!(
        world.run(&agent, "go"),
        Err(AgentError::Tool { name: s("tag"), message: s("tool not registered with agent") })
    );
    assert!(world.ran.is_empty());
}

#[test]
fn a_tool_that_fails_ends_the_run() {
    for parallel in [false, true] {
        let mut world = World::new(three_calls());
        world.tool = Box::new(|_, _| Err(AgentError::Other(s("broken"))));
        let agent = agent_with(&["tag"]).parallel_tool_calls(parallel).build().expect("build");
        assert_eq!(
            world.run(&agent, "go"),
            Err(AgentError::Tool { name: s("tag"), message: s("broken") })
        );
    }
}

#[test]
fn a_tool_that_reports_an_error_does_not_end_the_run() {
    let mut world = World::new(vec![tool_turn("a", "tag", "{}"), text_turn("ok")]);
    world.tool = Box::new(|_, _| Ok(ToolResult::error(s("bad"))));
    let agent = agent_with(&["tag"]).build().expect("build");
    let out = world.run(&agent, "go").expect("run");
    assert!(matches!(
        out.events.iter().find(|e| matches!(e, AgentEvent::ToolResult { .. })),
        Some(AgentEvent::ToolResult { is_error: true, .. })
    ));
    assert_eq!(out.text, "ok");
}

#[test]
fn the_stop_condition_ends_the_run() {
    let mut world = World::new(vec![tool_turn("a", "tag", "{}"), tool_turn("b", "tag", "{}")]);
    world.stop = Box::new(stop_count_is(2));
    let agent = agent_with(&["tag"]).build().expect("build");
    let out = world.run(&agent, "go").expect("run");
    assert_eq!(out.turns, 2);
    assert_eq!(out.reason, FinishReason::ToolUse);
}

#[test]
fn cancelled_before_it_began() {
    let mut world = World::new(vec![text_turn("never seen")]);
    world.cancel_after = Some(0);
    let agent = agent_with(&[]).build().expect("build");
    assert_eq!(world.run(&agent, "go"), Err(AgentError::Cancelled));
    assert!(world.requests.is_empty());
}

#[test]
fn cancelled_in_the_stream() {
    let mut world = World::new(vec![vec![
        LanguageModelEvent::TextDelta { delta: s("hello ") },
        LanguageModelEvent::TextDelta { delta: s("world ") },
        finish(FinishReason::Stop),
    ]]);
    world.cancel_after = Some(1);
    let agent = agent_with(&[]).build().expect("build");
    assert_eq!(world.run(&agent, "go"), Err(AgentError::Cancelled));
    assert_eq!(
        world.events,
        vec![
            AgentEvent::TextDelta { turn: 0, delta: s("hello ") },
            AgentEvent::Error { message: s("agent run cancelled") },
        ]
    );
}

#[test]
fn cancelled_in_a_tool() {
    let mut world = World::new(vec![tool_turn("a", "slow", "{\"ms\":1000}"), text_turn("never")]);
    world.cancel_in_tool = true;
    let agent = agent_with(&["slow"]).build().expect("build");
    assert_eq!(world.run(&agent, "go"), Err(AgentError::Cancelled));
    assert_eq!(world.requests.len(), 1);
}

#[test]
fn a_caller_that_is_gone_cancels_the_run() {
    let mut world = World::new(vec![text_turn("x")]);
    world.takes = 0;
    let agent = agent_with(&[]).build().expect("build");
    assert_eq!(world.run(&agent, "go"), Err(AgentError::Cancelled));
}

#[test]
fn a_model_that_cannot_be_called_ends_the_run() {
    let mut world = World::new(Vec::new());
    world.open_error = Some(ModelError::Auth(s("bad key")));
    let agent = agent_with(&[]).build().expect("build");
    assert_eq!(
        world.run(&agent, "go"),
        Err(AgentError::Provider(ModelError::Auth(s("bad key"))))
    );
}

#[test]
fn a_panic_of_a_tool_ends_the_run() {
    let agent = agent_with(&["tag"]).build().expect("build");
    for (cancelled, want) in [
        (true, AgentError::Cancelled),
        (false, AgentError::Other(s("tool task panicked: boom"))),
    ] {
        let mut run = run_to_the_tools(&agent);
        run = run.resume(Reply::JoinFailed { cancelled, message: s("boom") }).run;
        match run.resume(Reply::Sent(true)).step {
            Step::Done { result } => assert_eq!(result, Err(want)),
            other => panic!("expected the end, got {other:?}"),
        }
    }
}

fn run_to_the_tools(agent: &Agent) -> AgentLoop {
    let mut run = agent.start(s("")).resume(Reply::Begin).run;
    run = run.resume(Reply::CancelState(false)).run;
    run = run.resume(Reply::Opened(Ok(()))).run;
    let mut events = three_calls().remove(0);
    while !events.is_empty() {
        let moved = run.resume(Reply::Event(Ok(events.remove(0))));
        run = match moved.step {
            Step::Emit { .. } => moved.run.resume(Reply::Sent(true)).run,
            _ => moved.run,
        };
    }
    let mut moved = run.resume(Reply::StreamEnd);
    loop {
        let reply = match moved.step {
            Step::Emit { .. } => Reply::Sent(true),
            Step::CheckPermission { .. } => Reply::Permission(Decision::Allow),
            Step::SpawnTools { .. } => return moved.run,
            other => panic!("unexpected step {other:?}"),
        };
        moved = moved.run.resume(reply);
    }
}

#[test]
fn a_result_is_taken_once() {
    let agent = agent_with(&["tag"]).build().expect("build");
    let run = run_to_the_tools(&agent);
    let result = || Ok(ToolResult::text(s("x")));
    let moved = run.resume(Reply::Joined { index: 1, result: result() });
    assert_eq!(moved.step, Step::JoinTool);
    let moved = moved.run.resume(Reply::Joined { index: 1, result: result() });
    assert_eq!(moved.step, Step::Unexpected);
    let moved = moved.run.resume(Reply::Joined { index: 7, result: result() });
    assert_eq!(moved.step, Step::Unexpected);
}

#[test]
fn a_reply_out_of_place_changes_nothing() {
    let agent = agent_with(&[]).build().expect("build");
    let moved = agent.start(s("hi")).resume(Reply::StreamEnd);
    assert_eq!(moved.step, Step::Unexpected);
    assert_eq!(moved.run, agent.start(s("hi")));
    assert_eq!(moved.run.resume(Reply::Begin).step, Step::CheckCancel);
}

#[test]
fn a_run_that_is_over_stays_over() {
    let agent = agent_with(&[]).build().expect("build");
    let mut moved = agent.start(s("hi")).resume(Reply::Begin);
    moved = moved.run.resume(Reply::CancelState(true));
    assert_eq!(moved.step, Step::Emit { event: AgentEvent::Error { message: s("agent run cancelled") } });
    moved = moved.run.resume(Reply::Sent(false));
    assert_eq!(moved.step, Step::Done { result: Err(AgentError::Cancelled) });
    for reply in [Reply::Begin, Reply::Sent(true), Reply::CancelState(false), Reply::Cancelled] {
        moved = moved.run.resume(reply);
        assert_eq!(moved.step, Step::Unexpected);
    }
}
