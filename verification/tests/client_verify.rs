//! Protocol verification on the consuming side: what a malformed stream
//! should say.

use ag_ui::error::Error;
use ag_ui::event::{Event, TextMessageRole};
use ag_ui::ids::MessageId;
use ag_ui::verify::{verify_all, Verifier};

/// Runs a stream through a verifier and returns the first complaint.
fn complaint(events: &[Event]) -> String {
    let mut verifier = Verifier::new();
    for event in events {
        if let Err(error) = verifier.verify(event) {
            assert!(matches!(error, Error::Protocol(_)), "unexpected: {error:?}");
            return error.to_string();
        }
    }
    panic!("expected a violation, but the stream verified");
}

fn json(text: &str) -> serde_json::Value {
    serde_json::from_str(text).expect("test JSON parses")
}

#[test]
fn content_for_a_message_that_was_never_opened_is_rejected() {
    let said = complaint(&[
        Event::run_started("t", "r"),
        Event::text_message_content("msg-1", "orphan"),
    ]);
    assert!(said.contains("never opened"), "{said}");
    assert!(said.contains("msg-1"), "{said}");
}

#[test]
fn content_for_a_different_message_than_the_open_one_is_rejected() {
    let said = complaint(&[
        Event::run_started("t", "r"),
        Event::text_message_start("msg-1", TextMessageRole::Assistant),
        Event::text_message_content("msg-2", "wrong message"),
    ]);
    assert!(said.contains("msg-2"), "{said}");
    assert!(said.contains("msg-1"), "{said}");
}

#[test]
fn a_second_message_cannot_open_while_one_is_still_open() {
    let said = complaint(&[
        Event::run_started("t", "r"),
        Event::text_message_start("msg-1", TextMessageRole::Assistant),
        Event::text_message_start("msg-2", TextMessageRole::Assistant),
    ]);
    assert!(said.contains("still open"), "{said}");
}

#[test]
fn a_tool_call_cannot_open_inside_a_message() {
    let said = complaint(&[
        Event::run_started("t", "r"),
        Event::text_message_start("msg-1", TextMessageRole::Assistant),
        Event::tool_call_start("call-1", "t"),
    ]);
    assert!(said.contains("still open"), "{said}");
}

#[test]
fn tool_call_arguments_for_the_wrong_call_are_rejected() {
    let said = complaint(&[
        Event::run_started("t", "r"),
        Event::tool_call_start("call-1", "t"),
        Event::tool_call_args("call-2", "{}"),
    ]);
    assert!(said.contains("call-2"), "{said}");
}

#[test]
fn reasoning_content_needs_its_message_opened_first() {
    let said = complaint(&[
        Event::run_started("t", "r"),
        Event::reasoning_message_content("r-1", "thinking"),
    ]);
    assert!(said.contains("never opened"), "{said}");
}

#[test]
fn nothing_may_follow_a_finished_run() {
    let said = complaint(&[
        Event::run_started("t", "r"),
        Event::run_finished_success("t", "r"),
        Event::text_message_start("msg-1", TextMessageRole::Assistant),
    ]);
    assert!(said.contains("after the run had already finished"), "{said}");

    let said = complaint(&[
        Event::run_started("t", "r"),
        Event::run_error("boom"),
        Event::run_finished_success("t", "r"),
    ]);
    assert!(said.contains("after the run had already finished"), "{said}");
}

#[test]
fn a_run_starts_once() {
    let said = complaint(&[Event::run_started("t", "r"), Event::run_started("t", "r")]);
    assert!(said.contains("twice"), "{said}");
}

#[test]
fn the_stream_opens_with_run_started() {
    let said = complaint(&[Event::text_message_start("msg-1", TextMessageRole::Assistant)]);
    assert!(said.contains("before RUN_STARTED"), "{said}");
}

#[test]
fn raw_and_custom_events_are_outside_the_ordering_rules() {
    let mut verifier = Verifier::new();
    verifier
        .verify(&Event::custom("hello", json("1")))
        .expect("custom is allowed anywhere");
    verifier
        .verify(&Event::raw(json(r#"{ "provider": "openai" }"#)))
        .expect("raw is allowed anywhere");
    verifier
        .verify(&Event::run_started("t", "r"))
        .expect("and the run still starts cleanly");
}

#[test]
fn a_run_may_not_finish_with_a_message_still_open() {
    let said = complaint(&[
        Event::run_started("t", "r"),
        Event::text_message_start("msg-1", TextMessageRole::Assistant),
        Event::run_finished_success("t", "r"),
    ]);
    assert!(said.contains("still open"), "{said}");
}

#[test]
fn a_run_may_not_finish_with_a_step_still_running() {
    let said = complaint(&[
        Event::run_started("t", "r"),
        Event::step_started("plan"),
        Event::run_finished_success("t", "r"),
    ]);
    assert!(said.contains("still running"), "{said}");
}

#[test]
fn a_failing_run_may_abandon_what_it_had_open() {
    verify_all(&[
        Event::run_started("t", "r"),
        Event::text_message_start("msg-1", TextMessageRole::Assistant),
        Event::text_message_content("msg-1", "half a sen"),
        Event::run_error("the model went away"),
    ])
    .expect("a run error may leave things open");
}

#[test]
fn steps_must_match_their_names() {
    let said = complaint(&[Event::run_started("t", "r"), Event::step_finished("plan")]);
    assert!(said.contains("never started"), "{said}");

    let said = complaint(&[
        Event::run_started("t", "r"),
        Event::step_started("plan"),
        Event::step_started("plan"),
    ]);
    assert!(said.contains("already running"), "{said}");
}

#[test]
fn steps_may_nest_when_their_names_differ() {
    verify_all(&[
        Event::run_started("t", "r"),
        Event::step_started("outer"),
        Event::step_started("inner"),
        Event::step_finished("inner"),
        Event::step_finished("outer"),
        Event::run_finished_success("t", "r"),
    ])
    .expect("nested steps are fine");
}

#[test]
fn state_and_activity_events_may_interleave_with_a_message() {
    verify_all(&[
        Event::run_started("t", "r"),
        Event::text_message_start("msg-1", TextMessageRole::Assistant),
        Event::text_message_content("msg-1", "Hel"),
        Event::state_snapshot(json(r#"{ "progress": 0.5 }"#)),
        Event::step_started("mid-message"),
        Event::step_finished("mid-message"),
        Event::text_message_content("msg-1", "lo"),
        Event::text_message_end("msg-1"),
        Event::run_finished_success("t", "r"),
    ])
    .expect("state between fragments is legitimate");
}

#[test]
fn an_interrupt_outcome_with_no_interrupts_is_rejected() {
    let said = complaint(&[
        Event::run_started("t", "r"),
        Event::run_finished_interrupt("t", "r", Vec::new()),
    ]);
    assert!(said.contains("at least one interrupt"), "{said}");
}

#[test]
fn a_stream_that_stops_early_is_a_violation_of_its_own() {
    let mut verifier = Verifier::new();
    verifier.verify(&Event::run_started("t", "r")).expect("ok");
    let error = verifier.finish().expect_err("the run never finished");
    assert!(
        error.to_string().contains("ended before RUN_FINISHED"),
        "unexpected error: {error:?}"
    );

    let error = Verifier::new().finish().expect_err("nothing arrived");
    assert!(error.to_string().contains("ended before RUN_STARTED"));
}

#[test]
fn chunk_events_are_left_to_the_normalizer() {
    verify_all(&[
        Event::run_started("t", "r"),
        Event::text_message_chunk(Some(MessageId::new("msg-1")), Some("hi".to_owned())),
        Event::run_finished_success("t", "r"),
    ])
    .expect("chunks are not an ordering violation");
}

#[test]
fn a_finished_verifier_says_so() {
    let mut verifier = Verifier::new();
    assert!(!verifier.is_finished());
    verifier.verify(&Event::run_started("t", "r")).expect("start");
    verifier.verify(&Event::run_finished_success("t", "r")).expect("finish");
    assert!(verifier.is_finished());
    verifier.finish().expect("a finished run ended properly");
}
