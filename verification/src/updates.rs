//! What a view hears about a run: one [`Update`] per redraw, made from what
//! applying an event changed.
//!
//! Applying an event to the conversation reports what it changed; together
//! with what the conversation then holds (the message at that index, the
//! state in the caller's type, the reasoning text), that change decides the
//! updates a view is sent, whether the run is over, and which interrupts it
//! now waits on. `M` and `R` are what the conversation says a change to a
//! message or to reasoning was; `S` is the caller's state type.

use vstd::prelude::*;

use crate::error::Error;
use crate::ids::MessageId;
use crate::message::Message;
use crate::outcome::{copy_interrupts, Interrupt, RunOutcome};

verus! {

/// What applying one event changed, with what the conversation holds after
/// it where a view needs that.
pub enum Applied<S, M, R> {
    /// Nothing a view shows.
    Nothing,
    /// The run started.
    RunStarted,
    /// A message was created, appended to or completed.
    Message {
        /// Its index in the conversation.
        index: usize,
        /// Its id.
        id: MessageId,
        /// What the event did to it.
        kind: M,
        /// The message as it now stands, if the conversation has one at
        /// that index.
        message: Option<Message>,
    },
    /// A snapshot replaced the conversation, which now holds `messages`.
    MessagesReplaced {
        /// The conversation after it.
        messages: Vec<Message>,
    },
    /// The state changed; here it is in the caller's type, or why it would
    /// not read as that type.
    State {
        /// The typed state.
        state: Result<S, Error>,
    },
    /// Reasoning text arrived.
    Reasoning {
        /// The reasoning message's id.
        id: MessageId,
        /// What the event did to it.
        kind: R,
        /// The accumulated reasoning text, if there is any.
        text: Option<String>,
    },
    /// The run finished.
    RunFinished {
        /// How.
        outcome: RunOutcome,
        /// The agent's return value, if it sent one.
        result: Option<serde_json::Value>,
    },
    /// The run failed.
    RunError {
        /// What went wrong, for a human.
        message: String,
        /// The machine-readable code, when the agent sent one.
        code: Option<String>,
    },
}

/// A message that changed, and the message as it now stands.
pub struct MessageUpdate<M> {
    /// Its index in the conversation.
    pub index: usize,
    /// Its id.
    pub id: MessageId,
    /// What the event did to it.
    pub change: M,
    /// The whole message, assembled so far.
    pub message: Message,
}

/// Reasoning that changed, and the reasoning as it now stands.
pub struct ReasoningUpdate<R> {
    /// The reasoning message's id.
    pub id: MessageId,
    /// What the event did to it.
    pub change: R,
    /// The accumulated reasoning text.
    pub text: String,
}

/// How a run ended.
pub enum RunEnd {
    /// The agent finished.
    Success {
        /// The agent's return value, if it sent one.
        result: Option<serde_json::Value>,
    },
    /// The agent paused for human input.
    Interrupted {
        /// What the agent is waiting for.
        interrupts: Vec<Interrupt>,
    },
    /// The run failed.
    Failed {
        /// What went wrong, for a human.
        message: String,
        /// The machine-readable code, when the agent sent one.
        code: Option<String>,
    },
}

/// Something a view should react to: one update is one redraw.
pub enum Update<S, M, R> {
    /// A message was created, appended to, or completed.
    Message(MessageUpdate<M>),
    /// A snapshot replaced the conversation; redraw all of it.
    Messages(Vec<Message>),
    /// The state changed, and here it is in the caller's type.
    State(S),
    /// Reasoning text arrived.
    Reasoning(ReasoningUpdate<R>),
    /// The run paused and needs a human, once per pending interrupt.
    Interrupt(Interrupt),
    /// Something went wrong. Not necessarily fatal.
    Error(Error),
    /// The run ended; always the last update of a run.
    Done(RunEnd),
}

/// What one change gives a view and the conversation.
pub struct Emitted<S, M, R> {
    /// The updates, in the order a view hears them.
    pub updates: Vec<Update<S, M, R>>,
    /// Whether the run is over.
    pub done: bool,
    /// The interrupts the conversation now waits on, where they changed.
    pub interrupts: Option<Vec<Interrupt>>,
    /// A copy of the typed state to keep, where it changed.
    pub state: Option<S>,
}

/// Whether `e` is what `applied` gives: the updates, the end of the run, the
/// interrupts the conversation keeps and the typed state it keeps.
pub open spec fn emitted_for<S: Clone, M, R>(applied: Applied<S, M, R>, e: Emitted<S, M, R>) -> bool {
    match applied {
        Applied::Nothing => e.updates@.len() == 0 && !e.done && e.interrupts is None && e.state is None,
        Applied::RunStarted => e.updates@.len() == 0 && !e.done && e.interrupts is None && e.state is None,
        Applied::Message { index, id, kind, message } => {
            &&& !e.done && e.interrupts is None && e.state is None
            &&& match message {
                Some(m) => e.updates@.len() == 1 && e.updates@[0] == Update::<S, M, R>::Message(
                    MessageUpdate { index, id, change: kind, message: m },
                ),
                None => e.updates@.len() == 0,
            }
        },
        Applied::MessagesReplaced { messages } => {
            &&& !e.done && e.interrupts is None && e.state is None
            &&& e.updates@ == seq![Update::<S, M, R>::Messages(messages)]
        },
        Applied::State { state } => {
            &&& !e.done && e.interrupts is None
            &&& match state {
                Ok(s) => e.updates@ == seq![Update::<S, M, R>::State(s)] && (e.state matches Some(kept) && cloned(s, kept)),
                Err(err) => e.updates@ == seq![Update::<S, M, R>::Error(err)] && e.state is None,
            }
        },
        Applied::Reasoning { id, kind, text } => {
            &&& !e.done && e.interrupts is None && e.state is None
            &&& e.updates@.len() == 1
            &&& (e.updates@[0] matches Update::Reasoning(r) && r.id == id && r.change == kind && r.text@ == match text {
                Some(t) => t@,
                None => Seq::empty(),
            })
        },
        Applied::RunFinished { outcome, result } => {
            &&& e.done && e.state is None
            &&& match outcome {
                RunOutcome::Success => e.interrupts is None && e.updates@ == seq![
                    Update::<S, M, R>::Done(RunEnd::Success { result }),
                ],
                RunOutcome::Interrupt { interrupts } => {
                    &&& (e.interrupts matches Some(kept) && kept@ == interrupts@)
                    &&& e.updates@.len() == interrupts@.len() + 1
                    &&& forall|i: int| 0 <= i < interrupts@.len() ==> e.updates@[i] == Update::<S, M, R>::Interrupt(
                        #[trigger] interrupts@[i],
                    )
                    &&& (e.updates@.last() matches Update::Done(RunEnd::Interrupted { interrupts: all })
                        && all@ == interrupts@)
                },
            }
        },
        Applied::RunError { message, code } => {
            &&& e.done && e.interrupts is None && e.state is None
            &&& e.updates@ == seq![
                Update::<S, M, R>::Error(Error::Run { message, code }),
                Update::<S, M, R>::Done(RunEnd::Failed { message, code }),
            ]
        },
    }
}

/// Turns what applying an event changed into the updates a view hears,
/// whether the run is over, the interrupts to keep and the typed state to
/// keep. A message the conversation no longer holds at that index gives no
/// update; reasoning with no text yet gives empty text.
pub fn emit<S: Clone, M, R>(applied: Applied<S, M, R>) -> (e: Emitted<S, M, R>)
    ensures
        emitted_for(applied, e),
{
    let mut updates: Vec<Update<S, M, R>> = Vec::new();
    match applied {
        Applied::Nothing => Emitted { updates, done: false, interrupts: None, state: None },
        Applied::RunStarted => Emitted { updates, done: false, interrupts: None, state: None },
        Applied::Message { index, id, kind, message } => {
            match message {
                Some(m) => {
                    updates.push(Update::Message(MessageUpdate { index, id, change: kind, message: m }));
                },
                None => {},
            }
            Emitted { updates, done: false, interrupts: None, state: None }
        },
        Applied::MessagesReplaced { messages } => {
            updates.push(Update::Messages(messages));
            Emitted { updates, done: false, interrupts: None, state: None }
        },
        Applied::State { state } => match state {
            Ok(s) => {
                let kept = s.clone();
                updates.push(Update::State(s));
                Emitted { updates, done: false, interrupts: None, state: Some(kept) }
            },
            Err(err) => {
                updates.push(Update::Error(err));
                Emitted { updates, done: false, interrupts: None, state: None }
            },
        },
        Applied::Reasoning { id, kind, text } => {
            let text = match text {
                Some(t) => t,
                None => String::new(),
            };
            updates.push(Update::Reasoning(ReasoningUpdate { id, change: kind, text }));
            Emitted { updates, done: false, interrupts: None, state: None }
        },
        Applied::RunFinished { outcome, result } => match outcome {
            RunOutcome::Success => {
                updates.push(Update::Done(RunEnd::Success { result }));
                Emitted { updates, done: true, interrupts: None, state: None }
            },
            RunOutcome::Interrupt { interrupts } => {
                let kept = copy_interrupts(&interrupts);
                let mut i: usize = 0;
                while i < interrupts.len()
                    invariant
                        i <= interrupts@.len(),
                        updates@.len() == i,
                        forall|k: int| 0 <= k < i ==> updates@[k] == Update::<S, M, R>::Interrupt(
                            #[trigger] interrupts@[k],
                        ),
                    decreases interrupts@.len() - i,
                {
                    updates.push(Update::Interrupt(interrupts[i].clone()));
                    i = i + 1;
                }
                updates.push(Update::Done(RunEnd::Interrupted { interrupts }));
                Emitted { updates, done: true, interrupts: Some(kept), state: None }
            },
        },
        Applied::RunError { message, code } => {
            let code_copy = match &code {
                Some(c) => Some(c.clone()),
                None => None,
            };
            let message_copy = message.clone();
            assert(message_copy == message);
            assert(code_copy == code);
            updates.push(Update::Error(Error::Run { message: message_copy, code: code_copy }));
            updates.push(Update::Done(RunEnd::Failed { message, code }));
            assert(updates@ =~= seq![
                Update::<S, M, R>::Error(Error::Run { message, code }),
                Update::<S, M, R>::Done(RunEnd::Failed { message, code }),
            ]);
            Emitted { updates, done: true, interrupts: None, state: None }
        },
    }
}

/// A run's end is its last word: the updates are done exactly when the run
/// finished or failed, and then the last of them is `Done` and no other is;
/// before that, no update is `Done`. Interrupts are kept only from a run
/// that paused for them.
pub proof fn law_done_comes_last_and_only_at_the_end<S: Clone, M, R>(applied: Applied<S, M, R>, e: Emitted<S, M, R>)
    requires
        emitted_for(applied, e),
    ensures
        e.done <==> (applied is RunFinished || applied is RunError),
        e.done ==> e.updates@.len() > 0 && e.updates@.last() is Done,
        forall|i: int| 0 <= i < e.updates@.len() - 1 ==> !(#[trigger] e.updates@[i] is Done),
        !e.done ==> forall|i: int| 0 <= i < e.updates@.len() ==> !(#[trigger] e.updates@[i] is Done),
        e.interrupts is Some ==> (applied matches Applied::RunFinished { outcome, .. } && outcome is Interrupt),
{
    match applied {
        Applied::RunFinished { outcome, result } => match outcome {
            RunOutcome::Interrupt { interrupts } => {
                assert forall|i: int| 0 <= i < e.updates@.len() - 1 implies !(#[trigger] e.updates@[i] is Done) by {
                    assert(e.updates@[i] == Update::<S, M, R>::Interrupt(interrupts@[i]));
                }
            },
            _ => {},
        },
        Applied::RunError { message, code } => {
            assert(e.updates@[0] is Error);
        },
        _ => {},
    }
}

} // verus!
