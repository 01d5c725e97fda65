//! The parts of the agent: configuration, sessions, permissions, hooks, stop conditions, turns.

use agent_sdk::agent::builder::{Agent, AgentBuilder};
use agent_sdk::agent::error::{map_tool_err, AgentError};
use agent_sdk::agent::event::{
    add_usage, error_event, final_result, AgentEvent, FinalReceipt, RunOutput,
};
use agent_sdk::agent::external_command::{
    is_blank, CommandEnd, ExternalCommandHook, WireOutcome,
};
use agent_sdk::agent::hook::{HookChain, HookEvent, HookFlow, HookOutcome};
use agent_sdk::agent::permission::{
    asked_decision, AllowAll, AllowList, Asked, Decision, DenyAll, DenyList,
};
use agent_sdk::agent::session::Session;
use agent_sdk::agent::stop::{
    no_tool_calls, stop_count_is, And, LoopState, Never, NoToolCalls, Or, StopCondition,
    StopConditionExt, StopCountIs,
};
use agent_sdk::agent::tool::ToolResult;
use agent_sdk::agent::turn::TurnState;
use agent_sdk::json::Json;
use agent_sdk::language_model::error::ModelError;
use agent_sdk::language_model::event::{FinishReason, LanguageModelEvent, Usage};
use agent_sdk::language_model::message::{ContentBlock, Message, Role};
use agent_sdk::language_model::request::LanguageModelRequest;
use agent_sdk::language_model::tool::ToolSpec;
use agent_sdk::time::Timeout;

fn s(text: &str) -> String {
    text.to_string()
}

fn usage(input: u32, output: u32, cached: u32) -> Usage {
    Usage { input_tokens: input, output_tokens: output, cached_input_tokens: cached }
}

fn spec(name: &str) -> ToolSpec {
    ToolSpec::new(s(name), s("d"), Json::empty_object())
}

fn config_error(builder: AgentBuilder) -> String {
    match builder.build() {
        Err(AgentError::InvalidConfig(m)) => m,
        Err(e) => panic!("expected InvalidConfig, got {e:?}"),
        Ok(_) => panic!("expected InvalidConfig, got an agent"),
    }
}

#[test]
fn a_builder_needs_a_model() {
    assert_eq!(config_error(Agent::builder()), "Agent requires a model (call .model(..))");
}

#[test]
fn a_builder_needs_a_turn() {
    let b = AgentBuilder::new().model(s("p"), s("m")).max_turns(0);
    assert_eq!(config_error(b), "max_turns must be >= 1");
}

#[test]
fn a_builder_wants_distinct_tools() {
    let b = AgentBuilder::default()
        .model(s("p"), s("m"))
        .tool(spec("a"))
        .tool(spec("b"))
        .tool(spec("a"));
    assert_eq!(config_error(b), "duplicate tool name registered: a");
    let b = AgentBuilder::new()
        .model(s("p"), s("m"))
        .tool(spec("a"))
        .tools(vec![spec("a"), spec("b")]);
    assert!(b.build().is_ok());
}

#[test]
fn a_session_grows_at_its_end() {
    let mut session = Session::new(s("sess-1"));
    session.push(Message::user(s("hello")));
    session.push(Message::assistant(s("hi")));
    assert_eq!(session.id_if_any(), Some(s("sess-1")));
    assert_eq!(session.messages[1], Message::assistant(s("hi")));
    assert_eq!(session.clone(), session);
    assert_eq!(Session::default().id_if_any(), None);
}

#[test]
fn a_run_starts_with_the_input() {
    let mut seed = Session::new(s("x"));
    seed.push(Message::user(s("before")));
    let session = Session::for_run(Some(seed.clone()), "now");
    assert_eq!(session.messages, vec![Message::user(s("before")), Message::user(s("now"))]);
    assert_eq!(Session::for_run(Some(seed.clone()), ""), seed);
    assert!(Session::for_run(None, "").messages.is_empty());
}

#[test]
fn policies() {
    let args = Json::Null;
    assert_eq!(AllowAll.check("x", &args), Decision::Allow);
    assert_eq!(DenyAll.check("x", &args), Decision::Deny(s("DenyAll policy")));
    let allow = AllowList::new(vec![s("a"), s("b")]);
    assert_eq!(allow.check("b", &args), Decision::Allow);
    assert_eq!(allow.check("c", &args), Decision::AskUser { prompt: s("Allow tool 'c'?") });
    let deny = DenyList::new(vec![s("a")]);
    assert_eq!(deny.check("a", &args), Decision::Deny(s("tool 'a' is in deny list")));
    assert_eq!(deny.check("b", &args), Decision::Allow);
}

#[test]
fn a_question_that_nobody_answers_is_a_denial() {
    assert_eq!(asked_decision(Asked::Answered(Decision::Allow)), Decision::Allow);
    assert_eq!(asked_decision(Asked::Closed), Decision::Deny(s("ask-user channel closed")));
    assert_eq!(asked_decision(Asked::Dropped), Decision::Deny(s("ask-user channel dropped")));
}

fn state(turns: u32, calls: u32) -> LoopState {
    LoopState { turns, last_reason: FinishReason::ToolUse, last_tool_call_count: calls }
}

#[test]
fn stop_conditions() {
    assert!(!Never.should_stop(&state(9, 0)));
    assert!(!StopCountIs(3).should_stop(&state(2, 1)));
    assert!(StopCountIs(3).should_stop(&state(3, 1)));
    assert!(stop_count_is(3).should_stop(&state(4, 1)));
    assert!(NoToolCalls.should_stop(&state(1, 0)));
    assert!(!no_tool_calls().should_stop(&state(1, 1)));
}

#[test]
fn stop_conditions_compose() {
    let either = StopCountIs(2).or(NoToolCalls);
    assert!(either.should_stop(&state(1, 0)));
    assert!(either.should_stop(&state(2, 1)));
    assert!(!either.should_stop(&state(1, 1)));
    let both = StopCountIs(2).and(NoToolCalls);
    assert!(both.should_stop(&state(2, 0)));
    assert!(!both.should_stop(&state(2, 1)));
    assert!(Or(Never, StopCountIs(0)).should_stop(&state(0, 1)));
    assert!(!And(Never, StopCountIs(0)).should_stop(&state(0, 1)));
}

fn request(system: &str) -> LanguageModelRequest {
    let mut r = LanguageModelRequest::default();
    r.system = Some(s(system));
    r
}

fn flow_of(event: HookEvent, outcomes: Vec<HookOutcome>) -> HookFlow {
    let hooks = outcomes.len();
    let mut chain = HookChain::new(0, event);
    for outcome in outcomes {
        match chain.answer(hooks, outcome) {
            Ok(next) => chain = next,
            Err(flow) => return flow,
        }
    }
    panic!("the chain did not end");
}

#[test]
fn the_last_replacement_goes_upstream() {
    let event = HookEvent::PreModel { request: request("one") };
    let flow = flow_of(
        event,
        vec![
            HookOutcome::ModifyRequest(Box::new(request("two"))),
            HookOutcome::Continue,
            HookOutcome::ModifyRequest(Box::new(request("three"))),
        ],
    );
    assert_eq!(flow, HookFlow::Continue(Some(request("three"))));
}

#[test]
fn a_replacement_counts_only_before_the_model() {
    let event = HookEvent::OnError { message: s("x") };
    let flow = flow_of(event, vec![HookOutcome::ModifyRequest(Box::new(request("two")))]);
    assert_eq!(flow, HookFlow::Continue(None));
}

#[test]
fn the_first_objection_decides() {
    let event = || HookEvent::UserPromptSubmit { input: s("x") };
    let flow = flow_of(
        event(),
        vec![HookOutcome::Continue, HookOutcome::Deny(s("a")), HookOutcome::Halt(s("b"))],
    );
    assert_eq!(flow, HookFlow::Deny(s("a")));
    let flow = flow_of(event(), vec![HookOutcome::Halt(s("b")), HookOutcome::Deny(s("a"))]);
    assert_eq!(flow, HookFlow::Halt(s("b")));
}

#[test]
fn a_command_is_called_as_configured() {
    let hook = ExternalCommandHook::new(s("sh")).args(vec![s("-c")]).args(vec![s("x")]);
    assert_eq!(hook.program(), "sh");
    assert_eq!(hook.arguments(), &vec![s("-c"), s("x")]);
    assert_eq!(hook.time_allowed(), Timeout::from_secs(5));
    assert_eq!(hook.timeout(Timeout::from_millis(150)).time_allowed(), Timeout::from_millis(150));
}

#[test]
fn what_the_end_of_a_command_means() {
    let hook = ExternalCommandHook::new(s("sh")).timeout(Timeout::from_millis(150));
    let halt = |m: &str| HookOutcome::Halt(s(m));
    for (end, outcome) in [
        (CommandEnd::SerializeFailed(s("e")), halt("hook ctx serialize failed: e")),
        (CommandEnd::SpawnFailed(s("e")), halt("hook spawn failed: e")),
        (CommandEnd::WriteFailed(s("e")), halt("hook stdin write failed: e")),
        (CommandEnd::Cancelled, halt("hook cancelled")),
        (CommandEnd::TimedOut, halt("hook timed out after 150ms")),
        (CommandEnd::WaitFailed(s("e")), halt("hook wait failed: e")),
        (
            CommandEnd::Output { stdout: b" \n".to_vec(), answer: Err(s("e")) },
            HookOutcome::Continue,
        ),
        (
            CommandEnd::Output { stdout: b"x".to_vec(), answer: Err(s("e")) },
            halt("hook output not JSON: e"),
        ),
        (
            CommandEnd::Output { stdout: b"x".to_vec(), answer: Ok(WireOutcome::Continue) },
            HookOutcome::Continue,
        ),
        (
            CommandEnd::Output {
                stdout: b"x".to_vec(),
                answer: Ok(WireOutcome::Deny { reason: s("no") }),
            },
            HookOutcome::Deny(s("no")),
        ),
        (
            CommandEnd::Output {
                stdout: b"x".to_vec(),
                answer: Ok(WireOutcome::Halt { reason: s("stop") }),
            },
            halt("stop"),
        ),
    ] {
        assert_eq!(hook.outcome(end), outcome);
    }
}

#[test]
fn blank_output() {
    assert!(is_blank(&Vec::new()));
    assert!(is_blank(&b" \t\r\n\x0c".to_vec()));
    assert!(!is_blank(&b" \x0b".to_vec()));
}

#[test]
fn tool_results() {
    let r = ToolResult::text(s("x"));
    assert_eq!((r.content, r.is_error), (Json::Text(s("x")), false));
    let r = ToolResult::json(Json::empty_object());
    assert_eq!((r.content, r.is_error), (Json::Raw(s("{}")), false));
    let r = ToolResult::error(s("x"));
    assert_eq!((r.content, r.is_error), (Json::Text(s("x")), true));
}

#[test]
fn agent_errors_in_words() {
    let shown = |e: AgentError| e.to_text();
    assert_eq!(
        shown(AgentError::from(ModelError::Auth(s("x")))),
        "provider error: authentication failed: x"
    );
    assert_eq!(
        shown(AgentError::Tool { name: s("t"), message: s("x") }),
        "tool 't' failed: x"
    );
    assert_eq!(
        shown(AgentError::InvalidToolArguments { name: s("t"), message: s("x") }),
        "tool 't' produced invalid argument JSON: x"
    );
    assert_eq!(shown(AgentError::HookHalt(s("x"))), "hook halted the loop: x");
    assert_eq!(
        shown(AgentError::Permission { name: s("t"), message: s("x") }),
        "permission denied for tool 't': x"
    );
    assert_eq!(shown(AgentError::Mcp(s("x"))), "mcp error: x");
    assert_eq!(shown(AgentError::MaxTurns(16)), "reached max_turns (16)");
    assert_eq!(shown(AgentError::Cancelled), "agent run cancelled");
    assert_eq!(shown(AgentError::InvalidConfig(s("x"))), "invalid agent configuration: x");
    assert_eq!(shown(AgentError::Other(s("x"))), "x");
}

#[test]
fn tool_errors_keep_what_they_say() {
    assert_eq!(map_tool_err(s("t"), AgentError::Cancelled), AgentError::Cancelled);
    assert_eq!(
        map_tool_err(s("t"), AgentError::HookHalt(s("x"))),
        AgentError::HookHalt(s("x"))
    );
    assert_eq!(
        map_tool_err(s("t"), AgentError::MaxTurns(2)),
        AgentError::Tool { name: s("t"), message: s("reached max_turns (2)") }
    );
    let own = || AgentError::Tool { name: s("u"), message: s("x") };
    assert_eq!(map_tool_err(s("t"), own()), own());
}

#[test]
fn usage_adds_up_to_a_cap() {
    assert_eq!(add_usage(usage(1, 2, 3), usage(10, 20, 30)), usage(11, 22, 33));
    assert_eq!(add_usage(usage(u32::MAX, 0, 5), usage(1, 1, 1)), usage(u32::MAX, 1, 6));
}

#[test]
fn output_gathers_the_text_and_the_end() {
    let mut out = RunOutput::new();
    assert_eq!(out.reason, FinishReason::Other);
    for event in [
        AgentEvent::TextDelta { turn: 0, delta: s("he") },
        AgentEvent::ReasoningDelta { turn: 0, delta: s("hm") },
        AgentEvent::TextDelta { turn: 1, delta: s("llo") },
        AgentEvent::Finish { turns: 2, reason: FinishReason::Stop, usage: usage(1, 2, 3) },
    ] {
        out.collect(event);
    }
    assert_eq!(out.text, "hello");
    assert_eq!(out.turns, 2);
    assert_eq!(out.reason, FinishReason::Stop);
    assert_eq!(out.usage, usage(1, 2, 3));
    assert_eq!(out.events.len(), 4);
}

#[test]
fn an_error_event_holds_the_text_of_the_error() {
    assert_eq!(
        error_event(&AgentError::Cancelled),
        AgentEvent::Error { message: s("agent run cancelled") }
    );
}

#[test]
fn the_result_of_a_run_is_given_once() {
    assert_eq!(final_result(FinalReceipt::Arrived(Ok(()))), Ok(()));
    assert_eq!(
        final_result(FinalReceipt::Arrived(Err(AgentError::Cancelled))),
        Err(AgentError::Cancelled)
    );
    assert_eq!(
        final_result(FinalReceipt::Dropped),
        Err(AgentError::Other(s("agent loop dropped without final result")))
    );
    assert_eq!(
        final_result(FinalReceipt::Taken),
        Err(AgentError::Other(s("agent loop final result already consumed")))
    );
}

fn start(id: &str, name: &str) -> Result<LanguageModelEvent, ModelError> {
    Ok(LanguageModelEvent::ToolCallStart { id: s(id), name: s(name) })
}

fn delta(id: &str, text: &str) -> Result<LanguageModelEvent, ModelError> {
    Ok(LanguageModelEvent::ToolCallDelta { id: s(id), arguments_delta: s(text) })
}

#[test]
fn a_turn_gathers_its_message() {
    let mut t = TurnState::new(3);
    let told = t.absorb(Ok(LanguageModelEvent::ReasoningDelta { delta: s("hm") }));
    assert_eq!(told, Ok(Some(AgentEvent::ReasoningDelta { turn: 3, delta: s("hm") })));
    let told = t.absorb(Ok(LanguageModelEvent::ReasoningSignature { signature: s("sig") }));
    assert_eq!(told, Ok(None));
    t.absorb(Ok(LanguageModelEvent::TextDelta { delta: s("a") })).unwrap();
    t.absorb(Ok(LanguageModelEvent::TextDelta { delta: s("b") })).unwrap();
    assert!(t.absorb(start("x", "bash")).unwrap().is_some());
    assert!(t.absorb(start("x", "bash")).unwrap().is_none());
    t.absorb(delta("x", "{\"a\"")).unwrap();
    t.absorb(delta("x", ":1}")).unwrap();
    t.absorb(start("y", "ls")).unwrap();
    t.absorb(Ok(LanguageModelEvent::ToolCallEnd { id: s("y"), arguments: Some(Json::Null) }))
        .unwrap();
    t.absorb(start("z", "pwd")).unwrap();
    t.absorb(delta("z", "  ")).unwrap();
    t.absorb(Ok(LanguageModelEvent::Finish { reason: FinishReason::ToolUse, usage: usage(1, 2, 3) }))
        .unwrap();
    let end = t.finish();
    assert_eq!(end.events.len(), 3);
    assert_eq!(
        end.events[0],
        AgentEvent::ToolCallEnd {
            turn: 3,
            id: s("x"),
            name: s("bash"),
            arguments: Json::Raw(s("{\"a\":1}")),
        }
    );
    let outcome = end.result.unwrap();
    assert_eq!(outcome.finish_reason, FinishReason::ToolUse);
    assert_eq!(outcome.usage, usage(1, 2, 3));
    let block = |id: &str, name: &str, input: Json| ContentBlock::ToolUse {
        id: s(id),
        name: s(name),
        input,
    };
    assert_eq!(
        outcome.assistant_message,
        Message::new(
            Role::Assistant,
            vec![
                ContentBlock::Reasoning { text: s("hm"), signature: Some(s("sig")) },
                ContentBlock::text(s("ab")),
                block("x", "bash", Json::Raw(s("{\"a\":1}"))),
                block("y", "ls", Json::Null),
                block("z", "pwd", Json::empty_object()),
            ]
        )
    );
}

#[test]
fn tool_uses_stand_in_the_order_of_their_starts() {
    let start = |id: &str, name: &str| LanguageModelEvent::ToolCallStart { id: s(id), name: s(name) };
    let delta = |id: &str, text: &str| LanguageModelEvent::ToolCallDelta {
        id: s(id),
        arguments_delta: s(text),
    };
    let end = |id: &str| LanguageModelEvent::ToolCallEnd { id: s(id), arguments: None };
    let mut t = TurnState::new(0);
    for event in [
        delta("c", "{\"v\""),
        end("b"),
        start("a", "first"),
        start("b", "second"),
        start("a", "again"),
        delta("c", ":3}"),
        start("c", "third"),
        end("c"),
        end("a"),
    ] {
        t.absorb(Ok(event)).unwrap();
    }
    let uses = t.finish().result.unwrap().tool_uses;
    let got: Vec<(&str, &str)> = uses.iter().map(|u| (u.id.as_str(), u.name.as_str())).collect();
    assert_eq!(got, vec![("a", "first"), ("b", "second"), ("c", "third")]);
    assert_eq!(uses[2].arguments.to_text(), "{\"v\":3}");
}

#[test]
fn arguments_that_are_no_json_end_the_turn() {
    let mut t = TurnState::new(0);
    t.absorb(start("x", "ok")).unwrap();
    t.absorb(start("y", "echo")).unwrap();
    t.absorb(delta("y", "{not")).unwrap();
    let end = t.finish();
    assert_eq!(end.events.len(), 1);
    match end.result {
        Err(AgentError::InvalidToolArguments { name, message }) => {
            assert_eq!(name, "echo");
            assert!(!message.is_empty());
        }
        other => panic!("expected InvalidToolArguments, got {other:?}"),
    }
}

#[test]
fn a_turn_without_an_end_ended_for_another_reason() {
    let outcome = TurnState::new(0).finish().result.unwrap();
    assert_eq!(outcome.finish_reason, FinishReason::Other);
    assert_eq!(outcome.assistant_message, Message::new(Role::Assistant, Vec::new()));
    assert!(outcome.tool_uses.is_empty());
}

#[test]
fn errors_of_the_stream_end_the_turn() {
    let mut t = TurnState::new(0);
    assert_eq!(
        t.absorb(Ok(LanguageModelEvent::Error { message: s("x") })),
        Err(AgentError::Provider(ModelError::Other(s("x"))))
    );
    let mut t = TurnState::new(0);
    assert_eq!(
        t.absorb(Err(ModelError::Cancelled)),
        Err(AgentError::Provider(ModelError::Cancelled))
    );
}
