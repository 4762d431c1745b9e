//! Turning what applying an event changed into the updates a view hears.

use ag_ui::error::Error;
use ag_ui::ids::MessageId;
use ag_ui::message::Message;
use ag_ui::outcome::{Interrupt, RunOutcome};
use ag_ui::updates::{emit, Applied, RunEnd, Update};

type Step = Applied<u32, &'static str, &'static str>;

fn interrupt(id: &str) -> Interrupt {
    Interrupt { id: id.to_string(), reason: "tool_approval".to_string(), ..Default::default() }
}

#[test]
fn a_changed_message_is_sent_with_the_message_as_it_stands() {
    let step: Step = Applied::Message {
        index: 1,
        id: MessageId::new("m1"),
        kind: "delta",
        message: Some(Message::user("m1", "hi")),
    };
    let e = emit(step);
    assert!(!e.done);
    assert_eq!(e.updates.len(), 1);
    match &e.updates[0] {
        Update::Message(m) => {
            assert_eq!(m.index, 1);
            assert_eq!(m.id.as_str(), "m1");
            assert_eq!(m.change, "delta");
        }
        _ => panic!("a message update"),
    }
    let gone: Step = Applied::Message { index: 9, id: MessageId::new("m9"), kind: "delta", message: None };
    assert!(emit(gone).updates.is_empty());
}

#[test]
fn typed_state_is_sent_and_kept_and_a_bad_one_is_an_error() {
    let e = emit(Step::State { state: Ok(7) });
    assert!(matches!(e.updates[..], [Update::State(7)]));
    assert_eq!(e.state, Some(7));
    let e = emit(Step::State { state: Err(Error::Decode("not a number".to_string())) });
    assert!(matches!(&e.updates[..], [Update::Error(Error::Decode(_))]));
    assert!(e.state.is_none());
}

#[test]
fn reasoning_without_text_is_sent_as_empty() {
    let e = emit(Step::Reasoning { id: MessageId::new("r1"), kind: "start", text: None });
    match &e.updates[..] {
        [Update::Reasoning(r)] => assert_eq!(r.text, ""),
        _ => panic!("one reasoning update"),
    }
}

#[test]
fn an_interrupted_run_sends_each_interrupt_then_done() {
    let e = emit(Step::RunFinished {
        outcome: RunOutcome::Interrupt { interrupts: vec![interrupt("i1"), interrupt("i2")] },
        result: None,
    });
    assert!(e.done);
    assert_eq!(e.updates.len(), 3);
    assert!(matches!(&e.updates[0], Update::Interrupt(i) if i.id == "i1"));
    assert!(matches!(&e.updates[1], Update::Interrupt(i) if i.id == "i2"));
    assert!(matches!(&e.updates[2], Update::Done(RunEnd::Interrupted { interrupts }) if interrupts.len() == 2));
    assert_eq!(e.interrupts.map(|k| k.len()), Some(2));
}

#[test]
fn a_failed_run_reports_the_error_then_done() {
    let e = emit(Step::RunError { message: "boom".to_string(), code: Some("E1".to_string()) });
    assert!(e.done);
    assert!(matches!(&e.updates[0], Update::Error(Error::Run { message, code }) if message == "boom" && code.as_deref() == Some("E1")));
    assert!(matches!(&e.updates[1], Update::Done(RunEnd::Failed { message, .. }) if message == "boom"));
    let e = emit(Step::RunFinished { outcome: RunOutcome::Success, result: None });
    assert!(e.done);
    assert!(matches!(&e.updates[..], [Update::Done(RunEnd::Success { result: None })]));
    let e = emit(Step::Nothing);
    assert!(e.updates.is_empty() && !e.done);
}
