//! The server's sending side: what reaches the channel, and what does not.

use ag_ui::cancel::CancellationToken;
use ag_ui::event::{Event, EventType, TextMessageRole};
use ag_ui::server_verify::Rule;
use ag_ui::sink::{EmitError, EventSink};
use ag_ui::transform::{FilterToolCalls, TransformerChain};
use futures_channel::mpsc::{unbounded, UnboundedReceiver};

fn drain(rx: &mut UnboundedReceiver<Event>) -> Vec<EventType> {
    let mut out = Vec::new();
    while let Ok(event) = rx.try_recv() {
        out.push(event.event_type());
    }
    out
}

#[test]
fn accepted_events_reach_the_channel_in_order() {
    let (tx, mut rx) = unbounded();
    let mut sink = EventSink::new(tx, TransformerChain::new(), CancellationToken::new());
    sink.emit(Event::run_started("t", "r")).unwrap();
    sink.emit(Event::text_message_start("m", TextMessageRole::Assistant)).unwrap();
    sink.emit(Event::text_message_end("m")).unwrap();
    assert!(!sink.is_terminated());
    sink.emit(Event::run_finished_success("t", "r")).unwrap();
    assert!(sink.is_terminated());
    assert_eq!(
        drain(&mut rx),
        vec![EventType::RunStarted, EventType::TextMessageStart, EventType::TextMessageEnd, EventType::RunFinished]
    );
}

#[test]
fn a_refused_event_never_reaches_the_channel() {
    let (tx, mut rx) = unbounded();
    let mut sink = EventSink::new(tx, TransformerChain::new(), CancellationToken::new());
    sink.emit(Event::run_started("t", "r")).unwrap();
    let refused = sink.emit(Event::text_message_end("never-opened"));
    assert!(matches!(refused, Err(EmitError::Violation(_))));
    assert_eq!(drain(&mut rx), vec![EventType::RunStarted]);
}

#[test]
fn nothing_goes_out_after_the_end() {
    let (tx, mut rx) = unbounded();
    let mut sink = EventSink::new(tx, TransformerChain::new(), CancellationToken::new());
    sink.emit(Event::run_started("t", "r")).unwrap();
    sink.emit(Event::run_error("boom")).unwrap();
    match sink.emit(Event::run_started("t", "r2")) {
        Err(EmitError::Violation(v)) => assert_eq!(v.rule, Rule::RunEnded),
        other => panic!("expected a violation, got {other:?}"),
    }
    assert_eq!(drain(&mut rx), vec![EventType::RunStarted, EventType::RunError]);
}

#[test]
fn a_cancelled_run_emits_nothing_but_can_still_be_ended() {
    let (tx, mut rx) = unbounded();
    let cancel = CancellationToken::new();
    let mut sink = EventSink::new(tx, TransformerChain::new(), cancel.clone());
    sink.emit(Event::run_started("t", "r")).unwrap();
    cancel.cancel();
    assert!(matches!(sink.emit(Event::text_message_start("m", TextMessageRole::Assistant)), Err(EmitError::Cancelled)));
    sink.emit_forced(Event::run_error("cancelled")).unwrap();
    assert!(sink.cancel_token().is_cancelled());
    assert_eq!(drain(&mut rx), vec![EventType::RunStarted, EventType::RunError]);
}

#[test]
fn a_closed_receiver_is_a_disconnect() {
    let (tx, rx) = unbounded();
    drop(rx);
    let mut sink = EventSink::new(tx, TransformerChain::new(), CancellationToken::new());
    assert!(matches!(sink.emit(Event::run_started("t", "r")), Err(EmitError::Disconnected)));
}

#[test]
fn events_go_through_the_transformers_first() {
    let (tx, mut rx) = unbounded();
    let chain = TransformerChain::new().with(FilterToolCalls::deny(&["secret"]));
    let mut sink = EventSink::new(tx, chain, CancellationToken::new());
    sink.emit(Event::run_started("t", "r")).unwrap();
    sink.emit(Event::tool_call_start("c1", "secret")).unwrap();
    sink.emit(Event::tool_call_args("c1", "{}")).unwrap();
    sink.emit(Event::tool_call_end("c1")).unwrap();
    sink.emit(Event::tool_call_start("c2", "public")).unwrap();
    assert_eq!(drain(&mut rx), vec![EventType::RunStarted, EventType::ToolCallStart]);
}
