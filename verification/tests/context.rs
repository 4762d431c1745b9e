//! What an agent's run sees: ids, input, and emitting.

use ag_ui::context::RunContext;
use ag_ui::event::{Event, EventType};
use ag_ui::input::{RunAgentInput, Tool};
use ag_ui::outcome::ResumeEntry;
use futures_channel::mpsc::{unbounded, UnboundedReceiver};

fn context(input: RunAgentInput) -> (RunContext<()>, UnboundedReceiver<Event>) {
    let (tx, rx) = unbounded();
    (RunContext::new(input, (), tx), rx)
}

#[test]
fn ids_are_derived_from_the_run_id() {
    let (mut ctx, _events) = context(RunAgentInput::new("t", "run-7"));
    assert_eq!(ctx.new_message_id().as_str(), "run-7-msg-1");
    assert_eq!(ctx.new_message_id().as_str(), "run-7-msg-2");
    assert_eq!(ctx.new_tool_call_id().as_str(), "run-7-call-1");
}

#[test]
fn a_run_without_an_id_still_hands_out_ids() {
    let (mut ctx, _events) = context(RunAgentInput::new("t", ""));
    assert_eq!(ctx.new_message_id().as_str(), "run-msg-1");
}

#[test]
fn resume_entries_are_addressable_by_interrupt_id() {
    let mut input = RunAgentInput::new("t", "r");
    input.resume = Some(vec![ResumeEntry::resolved("i-1", serde_json::Value::Bool(true))]);
    let (ctx, _events) = context(input);
    assert!(ctx.is_resume());
    assert_eq!(ctx.resume().len(), 1);
    assert!(ctx.resume_for("i-1").is_some());
    assert!(ctx.resume_for("i-2").is_none());
}

#[test]
fn a_cancelled_run_fails_every_emit() {
    let (mut ctx, _events) = context(RunAgentInput::new("t", "r"));
    ctx.cancel_token().cancel();
    assert!(ctx.is_cancelled());
    let error = ctx.say("too late").expect_err("emit should fail");
    assert!(error.is_cancelled(), "{error:?}");
    assert!(ctx.check_cancelled().is_err());
}

#[test]
fn a_dropped_receiver_disconnects_the_run() {
    let (mut ctx, events) = context(RunAgentInput::new("t", "r"));
    drop(events);
    ctx.emit(Event::run_started("t", "r")).expect_err("nobody is listening");
    let error = ctx.say("nobody home").expect_err("emit should fail");
    assert!(error.is_disconnected(), "{error:?}");
}

#[test]
fn saying_something_is_one_whole_message() {
    let (mut ctx, mut events) = context(RunAgentInput::new("t", "r"));
    ctx.emit(Event::run_started("t", "r")).unwrap();
    let id = ctx.say("hello").unwrap();
    assert_eq!(id.as_str(), "r-msg-1");
    let mut kinds = Vec::new();
    while let Ok(event) = events.try_recv() {
        kinds.push(event.event_type());
    }
    assert_eq!(
        kinds,
        vec![EventType::RunStarted, EventType::TextMessageStart, EventType::TextMessageContent, EventType::TextMessageEnd]
    );
    assert!(!ctx.is_terminated());
}

#[test]
fn tools_are_found_by_name() {
    let mut input = RunAgentInput::new("t", "r");
    input.tools = vec![
        Tool { name: "a".to_string(), description: "first".to_string(), parameters: serde_json::Value::Null },
        Tool { name: "b".to_string(), description: "second".to_string(), parameters: serde_json::Value::Null },
    ];
    let (ctx, _events) = context(input);
    assert_eq!(ctx.tool("b").map(|t| t.description.as_str()), Some("second"));
    assert!(ctx.tool("c").is_none());
    assert_eq!(ctx.tools().len(), 2);
}

#[test]
fn the_state_changes_in_place_without_an_event() {
    let (tx, mut rx) = unbounded();
    let mut ctx = RunContext::new(RunAgentInput::new("t", "r"), 1u32, tx);
    *ctx.state_mut() += 41;
    assert_eq!(*ctx.state(), 42);
    drop(ctx);
    assert!(rx.try_next().unwrap().is_none());
}
