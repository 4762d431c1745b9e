//! Chunk normalization, and the edge cases that make it fiddly.

use ag_ui::chunks::{normalize_all, ChunkNormalizer};
use ag_ui::event::{Event, EventType, TextMessageChunkEvent, TextMessageRole, ToolCallChunkEvent};
use ag_ui::ids::{MessageId, ToolCallId};
use ag_ui::verify::verify_all;

fn types(events: &[Event]) -> Vec<EventType> {
    events.iter().map(Event::event_type).collect()
}

fn text_chunk(id: Option<&str>, delta: Option<&str>) -> Event {
    Event::text_message_chunk(id.map(MessageId::new), delta.map(std::borrow::ToOwned::to_owned))
}

fn tool_chunk(id: Option<&str>, name: Option<&str>, delta: Option<&str>) -> Event {
    Event::tool_call_chunk(
        id.map(ToolCallId::new),
        name.map(std::borrow::ToOwned::to_owned),
        delta.map(std::borrow::ToOwned::to_owned),
    )
}

#[test]
fn an_unterminated_chunk_stream_closes_at_the_end() {
    let events = normalize_all(vec![
        text_chunk(Some("msg-1"), Some("Hel")),
        text_chunk(None, Some("lo")),
        text_chunk(None, Some("!")),
    ])
    .expect("normalizes");
    assert_eq!(
        types(&events),
        [
            EventType::TextMessageStart,
            EventType::TextMessageContent,
            EventType::TextMessageContent,
            EventType::TextMessageContent,
            EventType::TextMessageEnd,
        ]
    );
}

#[test]
fn a_chunk_with_no_preceding_id_is_a_protocol_error() {
    let error = normalize_all(vec![text_chunk(None, Some("orphan"))])
        .expect_err("there is no message to attach the text to");
    assert!(error.to_string().contains("no messageId"), "unexpected error: {error:?}");

    let error = normalize_all(vec![tool_chunk(None, None, Some("{}"))])
        .expect_err("there is no call to attach the arguments to");
    assert!(error.to_string().contains("no toolCallId"), "unexpected error: {error:?}");
}

#[test]
fn a_tool_call_chunk_that_opens_a_call_must_name_the_tool() {
    let error = normalize_all(vec![tool_chunk(Some("call-1"), None, Some("{}"))])
        .expect_err("a call has to be named");
    assert!(
        error.to_string().contains("without a toolCallName"),
        "unexpected error: {error:?}"
    );
}

#[test]
fn alternating_chunk_streams_end_each_other() {
    let events = normalize_all(vec![
        text_chunk(Some("msg-1"), Some("a1")),
        text_chunk(Some("msg-2"), Some("b1")),
        text_chunk(None, Some("b2")),
        text_chunk(Some("msg-1"), Some("a2")),
    ])
    .expect("normalizes");
    assert_eq!(
        types(&events),
        [
            EventType::TextMessageStart,
            EventType::TextMessageContent,
            EventType::TextMessageEnd,
            EventType::TextMessageStart,
            EventType::TextMessageContent,
            EventType::TextMessageContent,
            EventType::TextMessageEnd,
            EventType::TextMessageStart,
            EventType::TextMessageContent,
            EventType::TextMessageEnd,
        ]
    );
}

#[test]
fn a_tool_call_chunk_closes_an_open_text_chunk_stream() {
    let events = normalize_all(vec![
        text_chunk(Some("msg-1"), Some("Checking")),
        tool_chunk(Some("call-1"), Some("get_weather"), Some(r#"{"city":"#)),
        tool_chunk(None, None, Some(r#""Seoul"}"#)),
    ])
    .expect("normalizes");
    assert_eq!(
        types(&events),
        [
            EventType::TextMessageStart,
            EventType::TextMessageContent,
            EventType::TextMessageEnd,
            EventType::ToolCallStart,
            EventType::ToolCallArgs,
            EventType::ToolCallArgs,
            EventType::ToolCallEnd,
        ]
    );

    let mut run = vec![Event::run_started("thread-1", "run-1")];
    run.extend(events);
    run.push(Event::run_finished_success("thread-1", "run-1"));
    verify_all(&run).expect("normalized chunks should be a valid stream");
}

#[test]
fn the_run_ending_closes_an_open_chunk_stream_before_it() {
    let events = normalize_all(vec![
        Event::run_started("thread-1", "run-1"),
        text_chunk(Some("msg-1"), Some("Done.")),
        Event::run_finished_success("thread-1", "run-1"),
    ])
    .expect("normalizes");
    assert_eq!(
        types(&events),
        [
            EventType::RunStarted,
            EventType::TextMessageStart,
            EventType::TextMessageContent,
            EventType::TextMessageEnd,
            EventType::RunFinished,
        ]
    );
}

#[test]
fn an_explicit_end_is_not_duplicated() {
    let events = normalize_all(vec![
        text_chunk(Some("msg-1"), Some("Hi")),
        Event::text_message_end("msg-1"),
    ])
    .expect("normalizes");
    assert_eq!(
        types(&events),
        [EventType::TextMessageStart, EventType::TextMessageContent, EventType::TextMessageEnd]
    );
}

#[test]
fn a_bare_chunk_continues_an_explicit_message() {
    let events = normalize_all(vec![
        Event::text_message_start("msg-1", TextMessageRole::Assistant),
        Event::text_message_content("msg-1", "Hel"),
        text_chunk(None, Some("lo")),
        Event::text_message_end("msg-1"),
    ])
    .expect("normalizes");
    assert_eq!(
        types(&events),
        [
            EventType::TextMessageStart,
            EventType::TextMessageContent,
            EventType::TextMessageContent,
            EventType::TextMessageEnd,
        ]
    );
}

#[test]
fn events_between_chunks_do_not_split_the_message() {
    let events = normalize_all(vec![
        text_chunk(Some("msg-1"), Some("Hel")),
        Event::state_snapshot(serde_json::from_str(r#"{ "progress": 0.5 }"#).unwrap()),
        text_chunk(None, Some("lo")),
    ])
    .expect("normalizes");
    assert_eq!(
        types(&events),
        [
            EventType::TextMessageStart,
            EventType::TextMessageContent,
            EventType::StateSnapshot,
            EventType::TextMessageContent,
            EventType::TextMessageEnd,
        ]
    );
}

#[test]
fn the_synthesized_start_takes_the_chunks_role_and_name() {
    let chunk = Event::TextMessageChunk(TextMessageChunkEvent {
        message_id: Some(MessageId::new("msg-1")),
        role: Some(TextMessageRole::User),
        delta: Some("typed by a human".into()),
        name: Some("ada".into()),
        ..TextMessageChunkEvent::default()
    });
    let events = normalize_all(vec![chunk]).expect("normalizes");
    let Event::TextMessageStart(start) = &events[0] else {
        panic!("expected a start event");
    };
    assert_eq!(start.role, TextMessageRole::User);
    assert_eq!(start.name.as_deref(), Some("ada"));
}

#[test]
fn a_tool_chunk_carries_its_parent_message_onto_the_synthesized_start() {
    let chunk = Event::ToolCallChunk(ToolCallChunkEvent {
        base: Default::default(),
        tool_call_id: Some(ToolCallId::new("call-1")),
        tool_call_name: Some("get_weather".into()),
        parent_message_id: Some(MessageId::new("msg-1")),
        delta: Some("{}".into()),
    });
    let events = normalize_all(vec![chunk]).expect("normalizes");
    let Event::ToolCallStart(start) = &events[0] else {
        panic!("expected a tool call start");
    };
    assert_eq!(start.parent_message_id.as_ref().map(|id| id.as_str()), Some("msg-1"));
}

#[test]
fn reasoning_chunks_expand_like_text_chunks() {
    let events = normalize_all(vec![
        Event::reasoning_message_chunk(Some(MessageId::new("r-1")), Some("Think".into())),
        Event::reasoning_message_chunk(None, Some("ing".into())),
    ])
    .expect("normalizes");
    assert_eq!(
        types(&events),
        [
            EventType::ReasoningMessageStart,
            EventType::ReasoningMessageContent,
            EventType::ReasoningMessageContent,
            EventType::ReasoningMessageEnd,
        ]
    );
}

#[test]
fn a_chunk_with_no_delta_still_opens_its_message() {
    let events = normalize_all(vec![text_chunk(Some("msg-1"), None)]).expect("normalizes");
    assert_eq!(types(&events), [EventType::TextMessageStart, EventType::TextMessageEnd]);
}

#[test]
fn the_normalizer_reports_whether_a_stream_is_open() {
    let mut normalizer = ChunkNormalizer::new();
    let mut out = Vec::new();

    assert!(!normalizer.is_open());
    normalizer
        .normalize(text_chunk(Some("msg-1"), Some("Hi")), &mut out)
        .expect("normalizes");
    assert!(normalizer.is_open());

    normalizer.finish(&mut out);
    assert!(!normalizer.is_open());
    assert_eq!(out.last().map(Event::event_type), Some(EventType::TextMessageEnd));
}

#[test]
fn normalized_chunks_carry_their_text() {
    let events = normalize_all(vec![
        text_chunk(Some("msg-1"), Some("Hel")),
        text_chunk(None, Some("lo")),
    ])
    .expect("normalizes");
    let Event::TextMessageContent(first) = &events[1] else {
        panic!("expected content");
    };
    let Event::TextMessageContent(second) = &events[2] else {
        panic!("expected content");
    };
    assert_eq!(first.message_id.as_str(), "msg-1");
    assert_eq!(second.message_id.as_str(), "msg-1");
    assert_eq!(first.delta, "Hel");
    assert_eq!(second.delta, "lo");
}
