//! The client's request builder, agent handle, scripted transport, and the
//! server's cancellation token.

use ag_ui::agent::{HttpAgentBuilder, RemoteAgent, RunParams};
use ag_ui::cancel::CancellationToken;
use ag_ui::error::Error;
use ag_ui::event::Event;
use ag_ui::gemini::{api_key, MissingApiKey};
use ag_ui::llm::chosen_key;
use ag_ui::input::RunAgentInput;
use ag_ui::message::{Message, UserContent};
use ag_ui::outcome::ResumeEntry;
use ag_ui::replay::ReplayTransport;

#[test]
fn cancel_is_visible_through_clones() {
    let token = CancellationToken::new();
    let clone = token.clone();
    assert!(!clone.is_cancelled());
    token.cancel();
    assert!(clone.is_cancelled());
}

#[test]
fn a_cancelled_wait_is_ready() {
    let token = CancellationToken::new();
    let waiter = token.cancelled();
    assert!(!waiter.token().is_cancelled());
    token.cancel();
    token.cancel();
    assert!(waiter.token().is_cancelled());
}

#[test]
fn run_params_build_the_request() {
    let input = RunParams::new("thread-1", "run-1")
        .user("msg-1", "What is the weather?")
        .message(Message::assistant("msg-2", "Sunny."))
        .parent_run_id("run-0")
        .resume(vec![ResumeEntry::cancelled("i1")])
        .into_input();
    assert_eq!(input.thread_id.as_str(), "thread-1");
    assert_eq!(input.run_id.as_str(), "run-1");
    assert_eq!(input.messages.len(), 2);
    let Message::User(user) = &input.messages[0] else {
        panic!("a user message first");
    };
    assert_eq!(user.id.as_str(), "msg-1");
    assert!(matches!(&user.content, UserContent::Text(t) if t == "What is the weather?"));
    assert_eq!(input.parent_run_id.as_ref().map(|r| r.as_str()), Some("run-0"));
    assert!(input.is_resume());

    let replaced = RunParams::new("t", "r").messages(vec![Message::user("u", "hi")]).into_input();
    assert_eq!(replaced.messages.len(), 1);
    let round: RunAgentInput = RunParams::from(RunAgentInput::new("t", "r")).into();
    assert_eq!(round, RunAgentInput::new("t", "r"));
}

#[test]
fn a_remote_agent_hands_back_its_transport() {
    let agent = RemoteAgent::new(ReplayTransport::new(vec![Event::run_started("t", "r")]));
    assert_eq!(agent.transport().remaining(), 1);
    assert_eq!(agent.into_transport().remaining(), 1);
}

#[test]
fn the_replay_script_runs_in_order_and_records_requests() {
    let mut transport = ReplayTransport::with_runs(vec![
        vec![Event::run_started("t", "r1")],
        vec![Event::run_started("t", "r2"), Event::run_finished_success("t", "r2")],
    ]);
    assert_eq!(transport.remaining(), 2);
    assert!(transport.last_request().is_none());

    let first = transport.run(RunAgentInput::new("t", "r1")).expect("a run");
    assert_eq!(first, vec![Event::run_started("t", "r1")]);
    let second = transport.run(RunAgentInput::new("t", "r2")).expect("a run");
    assert_eq!(second.len(), 2);
    let error = transport.run(RunAgentInput::new("t", "r3")).expect_err("the script is used up");
    assert_eq!(error, Error::Transport("the replay script has no runs left".to_owned()));

    assert_eq!(transport.remaining(), 0);
    assert_eq!(transport.requests().len(), 3);
    assert_eq!(transport.last_request().map(|r| r.run_id.as_str()), Some("r3"));
}

#[test]
fn the_http_builder_keeps_what_it_was_told() {
    let builder = HttpAgentBuilder::new("https://example.com/agent")
        .header("authorization", "Bearer x")
        .headers(&[("x-a", "1"), ("x-b", "2")])
        .timeout(std::time::Duration::from_secs(30))
        .connect_timeout(std::time::Duration::from_secs(5));
    assert_eq!(builder.url(), "https://example.com/agent");
    let names: Vec<&str> = builder.header_list().iter().map(|(n, _)| n.as_str()).collect();
    assert_eq!(names, ["authorization", "x-a", "x-b"]);
    assert_eq!(builder.run_timeout(), Some(std::time::Duration::from_secs(30)));
    assert_eq!(builder.connection_timeout(), Some(std::time::Duration::from_secs(5)));
}

#[test]
fn a_blank_gemini_key_is_missing() {
    assert_eq!(api_key(Some("  ".to_owned())), Err(MissingApiKey));
    assert_eq!(api_key(None), Err(MissingApiKey));
    assert_eq!(api_key(Some(" k ".to_owned())), Ok(" k ".to_owned()));
    assert_eq!(MissingApiKey.to_string(), "GEMINI_API_KEY is not set");
}

#[test]
fn the_llm_key_falls_back() {
    assert_eq!(chosen_key(None, Some("g".to_owned())), Some("g".to_owned()));
    assert_eq!(chosen_key(Some("a".to_owned()), Some("g".to_owned())), Some("a".to_owned()));
    assert!(ag_ui::llm::MissingApiKey.to_string().starts_with("neither AG_UI_LLM_API_KEY nor GEMINI_API_KEY is set"));
}

#[test]
fn a_new_run_is_a_new_request() {
    let input = RunParams::new("t", "r").into_input();
    assert_eq!(input, RunAgentInput::new("t", "r"));
    assert_eq!(input.state, serde_json::Value::Null);
    assert_eq!(input.forwarded_props, serde_json::Value::Null);
}
