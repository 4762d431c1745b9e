//! The server's ordering rules: one test per rule, plus proof that a valid
//! stream passes.

use ag_ui::event::{Event, TextMessageRole};
use ag_ui::ids::{MessageId, ToolCallId};
use ag_ui::server_verify::{Rule, Verifier};

fn started() -> Verifier {
    let mut verifier = Verifier::new();
    verifier
        .observe(&Event::run_started("t", "r"))
        .expect("RUN_STARTED must be accepted");
    verifier
}

fn rule_of(verifier: &mut Verifier, event: Event) -> Rule {
    verifier.observe(&event).expect_err("the event breaks a rule").rule
}

#[test]
fn a_well_formed_run_passes() {
    let mut verifier = started();
    for event in [
        Event::step_started("plan"),
        Event::text_message_start("m1", TextMessageRole::Assistant),
        Event::text_message_content("m1", "hi"),
        Event::text_message_end("m1"),
        Event::tool_call_start("c1", "search"),
        Event::tool_call_args("c1", "{}"),
        Event::tool_call_end("c1"),
        Event::tool_call_result("m2", "c1", "ok"),
        Event::step_finished("plan"),
        Event::run_finished_success("t", "r"),
    ] {
        verifier
            .observe(&event)
            .unwrap_or_else(|error| panic!("{event:?} should be accepted: {}", error.to_string()));
    }
}

#[test]
fn debug_builds_include_the_open_dump() {
    let mut verifier = started();
    verifier
        .observe(&Event::text_message_start("m1", TextMessageRole::Assistant))
        .expect("start");
    let error = verifier
        .observe(&Event::text_message_content("m2", "hi"))
        .expect_err("m2 was never opened");
    assert_eq!(error.rule, Rule::NotOpen);
    assert!(
        error.detail.contains("m1"),
        "debug dump should name the open message: {}",
        error.detail
    );
}

#[test]
fn a_valid_stream_passes() {
    let mut verifier = Verifier::new();
    for event in [
        Event::run_started("t", "r"),
        Event::step_started("plan"),
        Event::text_message_start("m1", TextMessageRole::Assistant),
        Event::text_message_content("m1", "hello"),
        Event::text_message_end("m1"),
        Event::reasoning_start("m2"),
        Event::reasoning_message_start("m2"),
        Event::reasoning_message_content("m2", "hmm"),
        Event::reasoning_message_end("m2"),
        Event::reasoning_end("m2"),
        Event::tool_call_start("c1", "search"),
        Event::tool_call_args("c1", "{}"),
        Event::tool_call_end("c1"),
        Event::tool_call_result("m3", "c1", "ok"),
        Event::state_snapshot(serde_json::from_str(r#"{"a": 1}"#).unwrap()),
        Event::custom("ping", serde_json::Value::from(1)),
        Event::step_finished("plan"),
        Event::run_finished_success("t", "r"),
    ] {
        verifier
            .observe(&event)
            .unwrap_or_else(|error| panic!("{event:?} should be accepted: {}", error.to_string()));
    }
}

#[test]
fn parallel_tool_calls_and_overlapping_messages_are_accepted() {
    let mut verifier = Verifier::new();
    for event in [
        Event::run_started("t", "r"),
        Event::text_message_start("m1", TextMessageRole::Assistant),
        Event::text_message_content("m1", "Checking both."),
        Event::tool_call_start("c1", "get_weather"),
        Event::tool_call_start("c2", "get_time"),
        Event::tool_call_args("c1", r#"{"city":"#),
        Event::tool_call_args("c2", r#"{"zone":"#),
        Event::tool_call_args("c1", r#""Seoul"}"#),
        Event::tool_call_end("c1"),
        Event::tool_call_args("c2", r#""KST"}"#),
        Event::tool_call_end("c2"),
        Event::text_message_end("m1"),
        Event::run_finished_success("t", "r"),
    ] {
        verifier
            .observe(&event)
            .unwrap_or_else(|error| panic!("{event:?} should be accepted: {}", error.to_string()));
    }
}

#[test]
fn content_without_a_start_is_rejected() {
    let mut verifier = Verifier::new();
    assert_eq!(rule_of(&mut verifier, Event::text_message_content("m1", "hello")), Rule::NotOpen);
}

#[test]
fn an_end_without_a_start_is_rejected() {
    let mut verifier = Verifier::new();
    assert_eq!(rule_of(&mut verifier, Event::text_message_end("m1")), Rule::NotOpen);
}

#[test]
fn a_duplicate_start_is_rejected() {
    let mut verifier = Verifier::new();
    verifier
        .observe(&Event::text_message_start("m1", TextMessageRole::Assistant))
        .expect("the first start is fine");
    assert_eq!(
        rule_of(&mut verifier, Event::text_message_start("m1", TextMessageRole::Assistant)),
        Rule::DuplicateStart
    );
}

#[test]
fn a_second_run_started_is_rejected() {
    let mut verifier = Verifier::new();
    verifier.observe(&Event::run_started("t", "r")).expect("the first start is fine");
    assert_eq!(rule_of(&mut verifier, Event::run_started("t", "r")), Rule::DuplicateRunStarted);
}

#[test]
fn finishing_with_a_message_open_is_rejected() {
    let mut verifier = Verifier::new();
    verifier
        .observe(&Event::text_message_start("m1", TextMessageRole::Assistant))
        .expect("start");
    assert_eq!(rule_of(&mut verifier, Event::run_finished_success("t", "r")), Rule::OpenAtFinish);
}

#[test]
fn finishing_with_a_step_open_is_rejected() {
    let mut verifier = Verifier::new();
    verifier.observe(&Event::step_started("plan")).expect("start");
    assert_eq!(rule_of(&mut verifier, Event::run_finished_success("t", "r")), Rule::OpenAtFinish);
}

#[test]
fn run_error_may_leave_things_open() {
    let mut verifier = Verifier::new();
    verifier
        .observe(&Event::text_message_start("m1", TextMessageRole::Assistant))
        .expect("start");
    verifier
        .observe(&Event::run_error("the model hung up"))
        .expect("a failed run cannot be expected to have tidied up");
}

#[test]
fn events_after_the_run_ended_are_rejected() {
    let mut verifier = Verifier::new();
    verifier.observe(&Event::run_finished_success("t", "r")).expect("finish");
    assert_eq!(
        rule_of(&mut verifier, Event::custom("late", serde_json::Value::from(1))),
        Rule::RunEnded
    );
}

#[test]
fn a_result_for_an_unknown_call_is_rejected() {
    let mut verifier = Verifier::new();
    assert_eq!(rule_of(&mut verifier, Event::tool_call_result("m1", "c-nope", "ok")), Rule::UnknownId);
}

#[test]
fn a_result_before_the_call_ends_is_rejected() {
    let mut verifier = Verifier::new();
    verifier.observe(&Event::tool_call_start("c1", "search")).expect("start");
    assert_eq!(rule_of(&mut verifier, Event::tool_call_result("m1", "c1", "ok")), Rule::OutOfOrder);
}

#[test]
fn a_chunk_needs_no_bracketing() {
    let mut verifier = Verifier::new();
    verifier
        .observe(&Event::text_message_chunk(Some(MessageId::new("m1")), Some("whole thing".to_owned())))
        .expect("chunks are self-contained");
    verifier
        .observe(&Event::tool_call_chunk(
            Some(ToolCallId::new("c1")),
            Some("search".to_owned()),
            Some("{}".to_owned()),
        ))
        .expect("chunks are self-contained");
    verifier
        .observe(&Event::tool_call_result("m2", "c1", "ok"))
        .expect("a chunked call is a known call");
}

#[test]
fn the_error_names_the_event_the_rule_and_the_id() {
    let mut verifier = Verifier::new();
    let error = verifier
        .observe(&Event::text_message_content("m1", "hello"))
        .expect_err("m1 was never opened");
    let message = error.to_string();
    assert!(message.contains("TEXT_MESSAGE_CONTENT"), "{message}");
    assert!(message.contains("not-open"), "{message}");
    assert!(message.contains("\"m1\""), "{message}");
}

#[test]
fn the_full_rejection_text_is_exact() {
    let mut verifier = Verifier::new();
    let error = verifier
        .observe(&Event::text_message_content("m1", "hello"))
        .expect_err("m1 was never opened");
    assert_eq!(
        error.to_string(),
        "TEXT_MESSAGE_CONTENT: not-open: message \"m1\" is not open [nothing open]"
    );
    verifier.observe(&Event::step_started("plan")).expect("start");
    verifier.observe(&Event::tool_call_start("c1", "search")).expect("start");
    let error = verifier.observe(&Event::run_finished_success("t", "r")).expect_err("open");
    assert_eq!(
        error.detail,
        "tool call \"c1\" is still open [open: tool_calls=[\"c1\"] steps=[\"plan\"]]"
    );
    assert_eq!(Rule::OpenAtFinish.as_str(), "open-at-finish");
}

#[test]
fn nothing_is_accepted_after_a_run_error() {
    let mut verifier = Verifier::new();
    verifier.observe(&Event::run_error("boom")).expect("an error ends the run");
    assert_eq!(rule_of(&mut verifier, Event::run_error("again")), Rule::RunEnded);
    assert_eq!(rule_of(&mut verifier, Event::run_started("t", "r")), Rule::RunEnded);
}

#[test]
fn the_dump_lists_open_ids_in_sorted_order() {
    let mut verifier = started();
    for event in [
        Event::tool_call_start("c9", "search"),
        Event::tool_call_start("c10", "search"),
        Event::tool_call_start("b", "search"),
    ] {
        verifier.observe(&event).expect("start");
    }
    let error = verifier.observe(&Event::run_finished_success("t", "r")).expect_err("open");
    assert!(
        error.detail.ends_with(" [open: tool_calls=[\"b\", \"c10\", \"c9\"]]"),
        "{}",
        error.detail
    );
}
