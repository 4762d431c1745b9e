//! What a consumer sees of an agent's subagents, mode by mode.

use ag_ui::event::{ActivitySnapshotEvent, Event, EventType, ReasoningEncryptedValueSubtype, TextMessageRole, ToolCallStartEvent};
use ag_ui::ids::{MessageId, RunId};
use ag_ui::message::{AssistantMessage, Message, ToolCall, ToolMessage};
use ag_ui::outcome::Interrupt;
use ag_ui::patch::PatchOperation;
use ag_ui::subagent::{SubagentFilter, SubagentVisibility};

fn tagged(event: Event, id: &str) -> Event {
    event.with_subagent_run_id(id)
}

fn kept(filter: &mut SubagentFilter, event: Event) -> bool {
    !filter.transform(event).is_empty()
}

fn chunk(id: Option<&str>, delta: &str) -> Event {
    Event::text_message_chunk(id.map(MessageId::new), Some(delta.to_owned()))
}

#[test]
fn hidden_drops_an_untagged_continuation_of_a_subagents_message() {
    let mut filter = SubagentVisibility::hidden();
    assert!(filter
        .transform(Event::text_message_start("m1", Default::default()).with_subagent_run_id("s1"))
        .is_empty());
    assert!(
        filter.transform(Event::text_message_content("m1", "hi")).is_empty(),
        "legal on the wire, but it belongs to the subagent"
    );
    assert!(filter.transform(Event::text_message_end("m1")).is_empty());
    assert!(filter.transform(Event::text_message_start("m1", Default::default())).is_empty());
    assert_eq!(filter.transform(Event::text_message_start("m2", Default::default())).len(), 1);
    assert_eq!(filter.mode(), SubagentVisibility::Hidden);
}

#[test]
fn hidden_drops_untagged_continuations_of_a_subagents_entities() {
    let mut filter = SubagentVisibility::hidden();

    assert!(!kept(&mut filter, tagged(chunk(Some("m1"), "Hel"), "s1")));
    assert!(!kept(&mut filter, chunk(None, "lo")));
    assert!(!kept(&mut filter, chunk(Some("m1"), "!")));
    assert!(kept(&mut filter, chunk(Some("m2"), "mine")));
    assert!(kept(&mut filter, chunk(None, " too")));

    assert!(!kept(&mut filter, tagged(Event::text_message_start("m3", TextMessageRole::Assistant), "s1")));
    let mut start = ToolCallStartEvent::new("c1", "search");
    start.parent_message_id = Some(MessageId::new("m3"));
    assert!(!kept(&mut filter, Event::ToolCallStart(start)));
    assert!(!kept(&mut filter, Event::tool_call_args("c1", "{}")));
    assert!(!kept(&mut filter, tagged(Event::tool_call_end("c1"), "s1")));
    assert!(!kept(&mut filter, Event::tool_call_result("m4", "c1", "hit")));
    assert!(!kept(&mut filter, tagged(Event::text_message_end("m3"), "s1")));
    assert!(!kept(&mut filter, Event::text_message_start("m3", TextMessageRole::Assistant)));
    assert!(!kept(&mut filter, Event::text_message_end("m3")));

    let mut filter = SubagentVisibility::hidden();
    let out = filter.transform(Event::messages_snapshot(vec![
        Message::assistant("h1", "mine"),
        Message::Assistant(AssistantMessage {
            id: MessageId::new("h2"),
            tool_calls: Some(vec![ToolCall::new("hc1", "search", "{}")]),
            subagent_run_id: Some(RunId::new("s1")),
            ..Default::default()
        }),
        Message::Tool(ToolMessage {
            id: MessageId::new("h3"),
            content: "hit".into(),
            tool_call_id: ag_ui::ids::ToolCallId::new("hc1"),
            ..Default::default()
        }),
    ]));
    let Some(Event::MessagesSnapshot(snapshot)) = out.first() else {
        panic!("the snapshot is kept: {out:?}");
    };
    let ids: Vec<&str> = snapshot.messages.iter().map(|m| m.id().as_str()).collect();
    assert_eq!(ids, ["h1"]);
    assert!(filter.transform(Event::tool_call_result("h4", "hc1", "again")).is_empty());
}

#[test]
fn hidden_routes_an_untagged_idless_chunk_like_the_normalizer() {
    let mut filter = SubagentVisibility::hidden();

    assert!(kept(&mut filter, chunk(Some("m1"), "a")));
    assert!(!kept(&mut filter, tagged(chunk(Some("m2"), "x"), "s1")));
    assert!(kept(&mut filter, chunk(None, "b")));

    assert!(kept(&mut filter, Event::text_message_start("m3", Default::default())));
    assert!(kept(&mut filter, chunk(None, "c")));
    assert!(kept(&mut filter, Event::text_message_end("m3")));

    assert!(!kept(&mut filter, tagged(chunk(Some("m4"), "y"), "s1")));
    assert!(!kept(&mut filter, chunk(None, "d")));

    assert!(!kept(&mut filter, tagged(Event::text_message_end("m4"), "s1")));
    assert!(kept(&mut filter, chunk(None, "e")));
}

#[test]
fn hidden_tracks_activities_by_their_owner() {
    let snapshot = |id: &str, replace: bool| {
        let mut event = ActivitySnapshotEvent::new(id, "progress", serde_json::Value::Object(serde_json::Map::new()));
        event.replace = replace;
        Event::ActivitySnapshot(event)
    };
    let delta = |id: &str| Event::activity_delta(id, "progress", vec![PatchOperation::add("/s", serde_json::Value::from(1))]);
    let mut filter = SubagentVisibility::hidden();

    assert!(filter.transform(tagged(snapshot("a1", true), "s1")).is_empty());
    assert!(filter.transform(delta("a1")).is_empty());
    assert!(filter.transform(snapshot("a1", false)).is_empty(), "a merge keeps the owner");

    assert_eq!(filter.transform(snapshot("a1", true)).len(), 1);
    assert_eq!(filter.transform(delta("a1")).len(), 1);

    let out = filter.transform(tagged(snapshot("a1", false), "s1"));
    assert_eq!(out.len(), 1);
    assert_eq!(out[0].subagent_run_id(), None);
}

#[test]
fn hidden_drops_an_encrypted_value_for_a_hidden_entity() {
    let mut filter = SubagentVisibility::hidden();

    assert!(!kept(&mut filter, tagged(Event::tool_call_start("c1", "search"), "s1")));
    assert!(!kept(&mut filter, tagged(Event::reasoning_message_start("r1"), "s1")));
    assert!(kept(&mut filter, Event::tool_call_start("c2", "search")));

    let blob = |subtype, id: &str| Event::reasoning_encrypted_value(subtype, id, "opaque");
    assert!(!kept(&mut filter, blob(ReasoningEncryptedValueSubtype::ToolCall, "c1")));
    assert!(!kept(&mut filter, blob(ReasoningEncryptedValueSubtype::Message, "r1")));
    assert!(kept(&mut filter, blob(ReasoningEncryptedValueSubtype::ToolCall, "c2")));
    assert!(!kept(&mut filter, tagged(blob(ReasoningEncryptedValueSubtype::ToolCall, "c2"), "s1")));
}

#[test]
fn hidden_keeps_what_a_snapshot_did_not_restate() {
    let mut filter = SubagentVisibility::hidden();

    assert!(!kept(&mut filter, tagged(Event::text_message_start("m1", Default::default()), "s1")));
    assert!(!kept(&mut filter, tagged(Event::text_message_end("m1"), "s1")));

    assert!(kept(&mut filter, Event::messages_snapshot(vec![Message::user("u1", "hi")])));
    assert!(!kept(&mut filter, Event::text_message_start("m1", Default::default())));
    assert!(!kept(&mut filter, tagged(Event::text_message_content("m1", "more"), "s1")));
    assert!(!kept(&mut filter, tagged(Event::text_message_end("m1"), "s1")));

    assert!(kept(&mut filter, Event::messages_snapshot(vec![Message::assistant("m1", "mine now")])));
    assert!(kept(&mut filter, Event::text_message_start("m1", Default::default())));
    assert!(kept(&mut filter, Event::text_message_end("m1")));
}

#[test]
fn hidden_keeps_the_state_a_subagent_published() {
    let mut filter = SubagentVisibility::hidden();
    let out = filter.transform(tagged(Event::state_snapshot(serde_json::Value::from(1)), "s1"));
    assert_eq!(out, vec![Event::state_snapshot(serde_json::Value::from(1))]);
    assert!(filter.transform(tagged(Event::step_started("plan"), "s1")).is_empty());
    assert!(filter
        .transform(Event::SubagentStarted(ag_ui::event::SubagentStartedEvent::default()))
        .is_empty());
}

#[test]
fn inline_flattens_the_stream_to_the_pre_subagent_shape() {
    let mut filter = SubagentVisibility::inline();
    assert!(filter
        .transform(Event::SubagentFinished(ag_ui::event::SubagentFinishedEvent::default()))
        .is_empty());
    assert!(filter.transform(tagged(Event::step_started("board"), "s1")).is_empty());
    assert_eq!(filter.transform(Event::step_started("board")).len(), 1);

    let out = filter.transform(tagged(Event::text_message_start("m1", Default::default()), "s1"));
    assert_eq!(out, vec![Event::text_message_start("m1", Default::default())]);

    let mut attributed = Message::assistant("h1", "from the worker");
    attributed.set_subagent_run_id(Some(RunId::new("s1")));
    let out = filter.transform(Event::messages_snapshot(vec![attributed, Message::user("u1", "hi")]));
    let Event::MessagesSnapshot(snapshot) = &out[0] else {
        panic!("wrong variant");
    };
    assert_eq!(snapshot.messages.len(), 2);
    assert!(snapshot.messages.iter().all(|m| m.subagent_run_id().is_none()));

    let interrupt = Interrupt::new("i1", "tool_approval").with_subagent_run_id(RunId::new("s1"));
    let out = filter.transform(Event::run_finished_interrupt("t", "r", vec![interrupt]));
    let Event::RunFinished(finished) = &out[0] else {
        panic!("wrong variant");
    };
    let Some(ag_ui::outcome::RunOutcome::Interrupt { interrupts }) = &finished.outcome else {
        panic!("the interrupt stays");
    };
    assert_eq!(interrupts.len(), 1);
    assert_eq!(interrupts[0].subagent_run_id, None);
    assert_eq!(interrupts[0].id, "i1");
}

#[test]
fn attributed_is_the_default_and_passes_everything() {
    assert_eq!(SubagentVisibility::default(), SubagentVisibility::Attributed);
    let mut filter = SubagentVisibility::Attributed.filter();
    let event = tagged(Event::text_message_start("m1", Default::default()), "s1");
    assert_eq!(filter.transform(event.clone()), vec![event]);
    let types: Vec<EventType> = filter
        .transform(Event::SubagentStarted(Default::default()))
        .iter()
        .map(Event::event_type)
        .collect();
    assert_eq!(types, [EventType::SubagentStarted]);
}
