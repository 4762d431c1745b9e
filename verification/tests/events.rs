//! The event model: types, wire names, base fields and outcomes.

use ag_ui::event::{Event, EventType, TextMessageRole};
use ag_ui::message::{BinaryInputContent, Message, Role};
use ag_ui::outcome::{Interrupt, RunOutcome};

#[test]
fn every_event_type_parses_back_from_its_wire_name() {
    for kind in EventType::all() {
        assert_eq!(EventType::parse(kind.as_str()), Some(kind));
    }
    assert_eq!(EventType::parse("NOT_A_TYPE"), None);
    assert_eq!(EventType::TextMessageStart.as_str(), "TEXT_MESSAGE_START");
}

#[test]
fn stamping_a_timestamp_keeps_the_event() {
    let event = Event::text_message_start("m1", TextMessageRole::Assistant).with_timestamp(1234);
    assert_eq!(event.event_type(), EventType::TextMessageStart);
    assert_eq!(event.base().timestamp, Some(1234));
    assert!(!event.is_attributed());
    let tagged = event.clone().with_subagent_run_id("s1");
    assert_eq!(tagged.subagent_run_id().map(|r| r.as_str()), Some("s1"));
    let mut cleared = tagged;
    cleared.clear_subagent_run_id();
    assert_eq!(cleared, event);
}

#[test]
fn only_the_thinking_family_is_deprecated() {
    assert!(Event::ThinkingStart(Default::default()).is_deprecated());
    assert!(!Event::reasoning_start("r1").is_deprecated());
    assert!(!Event::step_started("plan").is_deprecated());
}

#[test]
fn roles_have_wire_names() {
    assert_eq!(Role::Assistant.as_str(), "assistant");
    assert_eq!(Role::Tool.as_str(), "tool");
    assert_eq!(Message::user("u1", "hi").role(), Role::User);
    assert_eq!(Message::tool("t1", "c1", "ok").id().as_str(), "t1");
}

#[test]
fn a_binary_part_needs_a_payload() {
    let mut part = BinaryInputContent { mime_type: "image/png".to_owned(), ..Default::default() };
    assert!(!part.has_payload());
    part.url = Some("https://example.com/a.png".to_owned());
    assert!(part.has_payload());
}

#[test]
fn an_interrupt_outcome_must_carry_an_interrupt() {
    assert!(RunOutcome::Success.validate().is_ok());
    assert!(RunOutcome::interrupt(vec![Interrupt::new("i1", "tool_approval")]).validate().is_ok());
    let error = RunOutcome::interrupt(Vec::new()).validate().expect_err("empty");
    assert_eq!(error.to_string(), "an interrupt outcome must carry at least one interrupt");
}

#[test]
fn roles_display_as_their_wire_names() {
    for (role, name) in [
        (Role::Developer, "developer"),
        (Role::System, "system"),
        (Role::Assistant, "assistant"),
        (Role::User, "user"),
        (Role::Tool, "tool"),
        (Role::Activity, "activity"),
        (Role::Reasoning, "reasoning"),
    ] {
        assert_eq!(role.as_str(), name);
        assert_eq!(role.to_string(), name);
    }
}

#[test]
fn an_empty_binary_part_carries_no_payload() {
    let part = BinaryInputContent::default();
    assert!(!part.has_payload());
    assert!(part.mime_type.is_empty());
}
