//! A run's events on their way to the conversation: normalized, verified,
//! and held back when they break a rule.

use ag_ui::error::Error;
use ag_ui::event::{Event, EventType, TextMessageRole};
use ag_ui::ids::MessageId;
use ag_ui::pipeline::{Admitted, RunPipeline};

fn run(pipeline: &mut RunPipeline, events: Vec<Event>) -> Vec<Admitted> {
    let mut out = Vec::new();
    for event in events {
        pipeline.ingest(event, &mut out);
    }
    out
}

fn applied(out: &[Admitted]) -> Vec<EventType> {
    out.iter()
        .filter_map(|a| match a {
            Admitted::Apply(e) => Some(e.event_type()),
            Admitted::Report(_) => None,
        })
        .collect()
}

fn reports(out: &[Admitted]) -> Vec<String> {
    out.iter()
        .filter_map(|a| match a {
            Admitted::Report(e) => {
                assert!(matches!(e, Error::Protocol(_)));
                Some(e.to_string())
            }
            Admitted::Apply(_) => None,
        })
        .collect()
}

#[test]
fn a_well_formed_run_is_applied_whole() {
    let mut pipeline = RunPipeline::new(true);
    let out = run(
        &mut pipeline,
        vec![
            Event::run_started("t", "r"),
            Event::text_message_start("m", TextMessageRole::Assistant),
            Event::text_message_content("m", "hi"),
            Event::text_message_end("m"),
            Event::run_finished_success("t", "r"),
        ],
    );
    assert!(reports(&out).is_empty());
    assert_eq!(applied(&out).len(), 5);
}

#[test]
fn an_event_that_breaks_a_rule_is_reported_and_not_applied() {
    let mut pipeline = RunPipeline::new(true);
    let out = run(
        &mut pipeline,
        vec![Event::run_started("t", "r"), Event::text_message_content("m", "orphan")],
    );
    assert_eq!(applied(&out), vec![EventType::RunStarted]);
    let said = reports(&out);
    assert_eq!(said.len(), 1);
    assert!(said[0].contains("never opened"), "{}", said[0]);
}

#[test]
fn the_end_of_a_run_is_applied_even_when_it_breaks_a_rule() {
    let mut pipeline = RunPipeline::new(true);
    let out = run(
        &mut pipeline,
        vec![
            Event::run_started("t", "r"),
            Event::text_message_start("m", TextMessageRole::Assistant),
            Event::run_finished_success("t", "r"),
        ],
    );
    assert_eq!(reports(&out).len(), 1);
    assert_eq!(applied(&out), vec![EventType::RunStarted, EventType::TextMessageStart, EventType::RunFinished]);
    assert!(matches!(out.last(), Some(Admitted::Apply(Event::RunFinished(_)))));
}

#[test]
fn chunks_are_expanded_before_they_are_verified() {
    let mut pipeline = RunPipeline::new(true);
    let out = run(
        &mut pipeline,
        vec![
            Event::run_started("t", "r"),
            Event::text_message_chunk(Some(MessageId::new("m")), Some("hel".to_string())),
            Event::text_message_chunk(None, Some("lo".to_string())),
            Event::run_finished_success("t", "r"),
        ],
    );
    assert!(reports(&out).is_empty(), "{:?}", reports(&out));
    assert_eq!(
        applied(&out),
        vec![
            EventType::RunStarted,
            EventType::TextMessageStart,
            EventType::TextMessageContent,
            EventType::TextMessageContent,
            EventType::TextMessageEnd,
            EventType::RunFinished,
        ]
    );
}

#[test]
fn a_stream_that_stops_early_is_closed_and_reported() {
    let mut pipeline = RunPipeline::new(true);
    let mut out = run(
        &mut pipeline,
        vec![
            Event::run_started("t", "r"),
            Event::text_message_chunk(Some(MessageId::new("m")), Some("hi".to_string())),
        ],
    );
    pipeline.end_of_stream(&mut out);
    assert_eq!(
        applied(&out),
        vec![EventType::RunStarted, EventType::TextMessageStart, EventType::TextMessageContent, EventType::TextMessageEnd]
    );
    let said = reports(&out);
    assert_eq!(said.len(), 1);
    assert!(said[0].contains("ended before"), "{}", said[0]);
}

#[test]
fn without_verification_everything_is_applied() {
    let mut pipeline = RunPipeline::new(false);
    let mut out = run(
        &mut pipeline,
        vec![Event::text_message_content("m", "orphan"), Event::run_error("boom")],
    );
    pipeline.end_of_stream(&mut out);
    assert!(reports(&out).is_empty());
    assert_eq!(applied(&out), vec![EventType::TextMessageContent, EventType::RunError]);
}

#[test]
fn a_refused_chunk_is_reported() {
    let mut pipeline = RunPipeline::new(true);
    let out = run(
        &mut pipeline,
        vec![Event::run_started("t", "r"), Event::text_message_chunk(None, Some("x".to_string()))],
    );
    assert_eq!(applied(&out), vec![EventType::RunStarted]);
    assert_eq!(reports(&out).len(), 1);
}
