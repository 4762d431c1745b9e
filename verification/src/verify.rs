//! Client-side protocol verification: the ordering rules a stream of events
//! must follow, checked as the events arrive.
//!
//! 1. `RUN_STARTED` opens the stream, exactly once. Only `RAW` and `CUSTOM`
//!    may precede it.
//! 2. `RUN_FINISHED` and `RUN_ERROR` close it. Nothing may follow.
//! 3. One bracketed stream — a text message, a tool call or a reasoning
//!    message — is open at a time. Its content and its end must name it, and
//!    nothing else may open until it has ended.
//! 4. `TOOL_CALL_RESULT` may not answer a call that has not ended.
//! 5. `STEP_FINISHED` requires a matching `STEP_STARTED`, and a step name does
//!    not nest with itself.
//! 6. Everything open must be closed before `RUN_FINISHED`.
//! 7. An interrupt outcome must carry at least one interrupt.
//!
//! `RUN_ERROR` may abandon whatever was open. State, activity, step, raw and
//! custom events are unordered and may interleave with an open stream. Chunk
//! events are left to the chunk normalizer, which runs first.

use vstd::prelude::*;

use crate::error::Error;
use crate::event::{Event, EventType};
use crate::ids::{text_eq, StepName};
use crate::outcome::{empty_interrupt_text, RunOutcome};
use crate::text::{cat, debug_quoted, quoted};

verus! {

/// The families of bracketed stream.
#[derive(Clone, Copy, Debug, PartialEq, Eq, Structural)]
pub enum StreamKind {
    /// `TEXT_MESSAGE_START` … `TEXT_MESSAGE_END`.
    Text,
    /// `TOOL_CALL_START` … `TOOL_CALL_END`.
    Tool,
    /// `REASONING_MESSAGE_START` … `REASONING_MESSAGE_END`.
    Reasoning,
}

impl StreamKind {
    /// What the errors call a stream of this family.
    pub open spec fn noun(self) -> Seq<char> {
        match self {
            StreamKind::Text => "message"@,
            StreamKind::Tool => "tool call"@,
            StreamKind::Reasoning => "reasoning message"@,
        }
    }

    /// What the errors call a stream of this family.
    pub fn noun_str(&self) -> (noun: &'static str)
        ensures
            noun@ == self.noun(),
    {
        match self {
            StreamKind::Text => "message",
            StreamKind::Tool => "tool call",
            StreamKind::Reasoning => "reasoning message",
        }
    }
}

/// The part an event plays in its stream.
#[derive(Clone, Copy, Debug, PartialEq, Eq, Structural)]
pub enum Bracket {
    /// It opens the stream.
    Open,
    /// It adds to the open stream.
    Continue,
    /// It closes the stream.
    Close,
}

/// The stream an event belongs to, the part it plays, and the id it names.
pub open spec fn bracket_of(event: Event) -> Option<(StreamKind, Bracket, Seq<char>)> {
    match event {
        Event::TextMessageStart(p) => Some((StreamKind::Text, Bracket::Open, p.message_id@)),
        Event::TextMessageContent(p) => Some((StreamKind::Text, Bracket::Continue, p.message_id@)),
        Event::TextMessageEnd(p) => Some((StreamKind::Text, Bracket::Close, p.message_id@)),
        Event::ToolCallStart(p) => Some((StreamKind::Tool, Bracket::Open, p.tool_call_id@)),
        Event::ToolCallArgs(p) => Some((StreamKind::Tool, Bracket::Continue, p.tool_call_id@)),
        Event::ToolCallEnd(p) => Some((StreamKind::Tool, Bracket::Close, p.tool_call_id@)),
        Event::ReasoningMessageStart(p) => Some(
            (StreamKind::Reasoning, Bracket::Open, p.message_id@),
        ),
        Event::ReasoningMessageContent(p) => Some(
            (StreamKind::Reasoning, Bracket::Continue, p.message_id@),
        ),
        Event::ReasoningMessageEnd(p) => Some(
            (StreamKind::Reasoning, Bracket::Close, p.message_id@),
        ),
        _ => None,
    }
}

/// The stream an event belongs to, the part it plays, and the id it names.
pub fn bracket(event: &Event) -> (found: Option<(StreamKind, Bracket, &str)>)
    ensures
        found matches Some((k, b, id)) ==> bracket_of(*event) == Some((k, b, id@)),
        found is None <==> bracket_of(*event) is None,
{
    match event {
        Event::TextMessageStart(p) => Some((StreamKind::Text, Bracket::Open, p.message_id.as_str())),
        Event::TextMessageContent(p) => Some(
            (StreamKind::Text, Bracket::Continue, p.message_id.as_str()),
        ),
        Event::TextMessageEnd(p) => Some((StreamKind::Text, Bracket::Close, p.message_id.as_str())),
        Event::ToolCallStart(p) => Some((StreamKind::Tool, Bracket::Open, p.tool_call_id.as_str())),
        Event::ToolCallArgs(p) => Some(
            (StreamKind::Tool, Bracket::Continue, p.tool_call_id.as_str()),
        ),
        Event::ToolCallEnd(p) => Some((StreamKind::Tool, Bracket::Close, p.tool_call_id.as_str())),
        Event::ReasoningMessageStart(p) => Some(
            (StreamKind::Reasoning, Bracket::Open, p.message_id.as_str()),
        ),
        Event::ReasoningMessageContent(p) => Some(
            (StreamKind::Reasoning, Bracket::Continue, p.message_id.as_str()),
        ),
        Event::ReasoningMessageEnd(p) => Some(
            (StreamKind::Reasoning, Bracket::Close, p.message_id.as_str()),
        ),
        _ => None,
    }
}

/// What a verifier knows about the stream so far.
pub struct VerifierState {
    /// `RUN_STARTED` has arrived.
    pub started: bool,
    /// `RUN_FINISHED` or `RUN_ERROR` has arrived.
    pub finished: bool,
    /// The bracketed stream currently open, by family and id.
    pub open: Option<(StreamKind, Seq<char>)>,
    /// The steps running, oldest first.
    pub steps: Seq<Seq<char>>,
}

/// The state of a stream nothing has arrived on.
pub open spec fn initial_state() -> VerifierState {
    VerifierState { started: false, finished: false, open: None, steps: Seq::empty() }
}

/// Events outside the protocol's vocabulary, and so outside its ordering.
pub open spec fn unordered(kind: EventType) -> bool {
    kind == EventType::Raw || kind == EventType::Custom
}

/// "{kind} arrived after the run had already finished"
pub open spec fn after_finish_text(kind: EventType) -> Seq<char> {
    kind.wire_name() + " arrived after the run had already finished"@
}

/// "{kind} arrived before RUN_STARTED"
pub open spec fn before_start_text(kind: EventType) -> Seq<char> {
    kind.wire_name() + " arrived before RUN_STARTED"@
}

/// "RUN_STARTED arrived twice in one stream"
pub open spec fn twice_text() -> Seq<char> {
    "RUN_STARTED arrived twice in one stream"@
}

/// "{kind} for {noun} {id:?}" — how every complaint about a stream begins.
pub open spec fn about_text(kind: EventType, stream: StreamKind, id: Seq<char>) -> Seq<char> {
    kind.wire_name() + " for "@ + stream.noun() + " "@ + debug_quoted(id)
}

/// "…, which is already open"
pub open spec fn already_open_text(kind: EventType, stream: StreamKind, id: Seq<char>) -> Seq<char> {
    about_text(kind, stream, id) + ", which is already open"@
}

/// "… while {noun} {id:?} is still open"
pub open spec fn still_open_text(
    kind: EventType,
    stream: StreamKind,
    id: Seq<char>,
    other: StreamKind,
    other_id: Seq<char>,
) -> Seq<char> {
    about_text(kind, stream, id) + " while "@ + other.noun() + " "@ + debug_quoted(other_id)
        + " is still open"@
}

/// "…, but {noun} {id:?} is the one open"
pub open spec fn other_open_text(
    kind: EventType,
    stream: StreamKind,
    id: Seq<char>,
    other_id: Seq<char>,
) -> Seq<char> {
    about_text(kind, stream, id) + ", but "@ + stream.noun() + " "@ + debug_quoted(other_id)
        + " is the one open"@
}

/// "…, which was never opened"
pub open spec fn never_opened_text(kind: EventType, stream: StreamKind, id: Seq<char>) -> Seq<char> {
    about_text(kind, stream, id) + ", which was never opened"@
}

/// "…, which has not ended yet"
pub open spec fn not_ended_text(kind: EventType, id: Seq<char>) -> Seq<char> {
    about_text(kind, StreamKind::Tool, id) + ", which has not ended yet"@
}

/// "STEP_STARTED for {name:?}, which is already running"
pub open spec fn step_running_text(name: Seq<char>) -> Seq<char> {
    "STEP_STARTED for "@ + debug_quoted(name) + ", which is already running"@
}

/// "STEP_FINISHED for {name:?}, which never started"
pub open spec fn step_unknown_text(name: Seq<char>) -> Seq<char> {
    "STEP_FINISHED for "@ + debug_quoted(name) + ", which never started"@
}

/// "RUN_FINISHED arrived while {noun} {id:?} was still open"
pub open spec fn open_at_finish_text(stream: StreamKind, id: Seq<char>) -> Seq<char> {
    "RUN_FINISHED arrived while "@ + stream.noun() + " "@ + debug_quoted(id) + " was still open"@
}

/// "RUN_FINISHED arrived while step {name:?} was still running"
pub open spec fn step_at_finish_text(name: Seq<char>) -> Seq<char> {
    "RUN_FINISHED arrived while step "@ + debug_quoted(name) + " was still running"@
}

/// What `RUN_FINISHED` with `outcome` is rejected for in state `s`, if anything.
pub open spec fn finish_complaint(s: VerifierState, outcome: Option<RunOutcome>) -> Option<Seq<char>> {
    match s.open {
        Some((stream, id)) => Some(open_at_finish_text(stream, id)),
        None => if s.steps.len() > 0 {
            Some(step_at_finish_text(s.steps[0]))
        } else {
            match outcome {
                Some(o) => if o.well_formed() {
                    None
                } else {
                    Some(empty_interrupt_text())
                },
                None => None,
            }
        },
    }
}

/// What a bracketed event is rejected for in state `s`, if anything.
pub open spec fn bracket_complaint(
    s: VerifierState,
    kind: EventType,
    stream: StreamKind,
    part: Bracket,
    id: Seq<char>,
) -> Option<Seq<char>> {
    if part == Bracket::Open {
        match s.open {
            None => None,
            Some((other, other_id)) => if other == stream && other_id == id {
                Some(already_open_text(kind, stream, id))
            } else {
                Some(still_open_text(kind, stream, id, other, other_id))
            },
        }
    } else {
        match s.open {
            Some((other, other_id)) => if other == stream {
                if other_id == id {
                    None
                } else {
                    Some(other_open_text(kind, stream, id, other_id))
                }
            } else {
                Some(never_opened_text(kind, stream, id))
            },
            None => Some(never_opened_text(kind, stream, id)),
        }
    }
}

/// What `event` is rejected for in state `s`: `None` when it is accepted.
pub open spec fn complaint(s: VerifierState, event: Event) -> Option<Seq<char>> {
    let kind = event.kind();
    if s.finished {
        Some(after_finish_text(kind))
    } else if unordered(kind) {
        None
    } else if !s.started && kind != EventType::RunStarted {
        Some(before_start_text(kind))
    } else {
        match event {
            Event::RunStarted(_) => if s.started {
                Some(twice_text())
            } else {
                None
            },
            Event::RunFinished(p) => finish_complaint(s, p.outcome),
            Event::ToolCallResult(p) => if s.open == Some((StreamKind::Tool, p.tool_call_id@)) {
                Some(not_ended_text(kind, p.tool_call_id@))
            } else {
                None
            },
            Event::StepStarted(p) => if s.steps.contains(p.step_name@) {
                Some(step_running_text(p.step_name@))
            } else {
                None
            },
            Event::StepFinished(p) => if s.steps.contains(p.step_name@) {
                None
            } else {
                Some(step_unknown_text(p.step_name@))
            },
            _ => match bracket_of(event) {
                Some((stream, part, id)) => bracket_complaint(s, kind, stream, part, id),
                None => None,
            },
        }
    }
}

/// The state after `event` arrives in state `s`. A rejected event changes
/// nothing, except that a `RUN_FINISHED` ends the run whether or not it ended
/// it tidily.
pub open spec fn next_state(s: VerifierState, event: Event) -> VerifierState {
    let kind = event.kind();
    if s.finished || unordered(kind) || (!s.started && kind != EventType::RunStarted) {
        s
    } else {
        match event {
            Event::RunStarted(_) => VerifierState { started: true, ..s },
            Event::RunFinished(_) => VerifierState { finished: true, ..s },
            Event::RunError(_) => VerifierState { finished: true, ..s },
            Event::StepStarted(p) => if s.steps.contains(p.step_name@) {
                s
            } else {
                VerifierState { steps: s.steps.push(p.step_name@), ..s }
            },
            Event::StepFinished(p) => match s.steps.index_of_first(p.step_name@) {
                Some(i) => VerifierState { steps: s.steps.remove(i), ..s },
                None => s,
            },
            _ => match bracket_of(event) {
                Some((stream, Bracket::Open, id)) => if s.open is None {
                    VerifierState { open: Some((stream, id)), ..s }
                } else {
                    s
                },
                Some((stream, Bracket::Close, id)) => if s.open == Some((stream, id)) {
                    VerifierState { open: None, ..s }
                } else {
                    s
                },
                _ => s,
            },
        }
    }
}

/// Runs `events` through a verifier that starts in state `s`: the state
/// reached, or the first complaint.
pub open spec fn run_events(s: VerifierState, events: Seq<Event>) -> Result<VerifierState, Seq<char>>
    decreases events.len(),
{
    if events.len() == 0 {
        Ok(s)
    } else {
        match run_events(s, events.drop_last()) {
            Err(m) => Err(m),
            Ok(t) => match complaint(t, events.last()) {
                Some(m) => Err(m),
                None => Ok(next_state(t, events.last())),
            },
        }
    }
}

/// What `finish` reports for state `s`, if anything.
pub open spec fn end_complaint(s: VerifierState) -> Option<Seq<char>> {
    if !s.started {
        Some("the stream ended before RUN_STARTED"@)
    } else if !s.finished {
        Some("the stream ended before RUN_FINISHED or RUN_ERROR"@)
    } else {
        None
    }
}

/// What `verify_all` reports for a whole run, if anything.
pub open spec fn stream_complaint(events: Seq<Event>) -> Option<Seq<char>> {
    match run_events(initial_state(), events) {
        Err(m) => Some(m),
        Ok(s) => end_complaint(s),
    }
}

/// An ordering state machine for one run's event stream.
///
/// One verifier per run: it is stateful, and its state is that run's progress.
#[derive(Clone, Debug, Default)]
pub struct Verifier {
    started: bool,
    finished: bool,
    open: Option<(StreamKind, String)>,
    steps: Vec<StepName>,
}

impl View for Verifier {
    type V = VerifierState;

    closed spec fn view(&self) -> VerifierState {
        VerifierState {
            started: self.started,
            finished: self.finished,
            open: match self.open {
                Some((k, id)) => Some((k, id@)),
                None => None,
            },
            steps: self.steps@.map_values(|n: StepName| n@),
        }
    }
}

impl Verifier {
    /// A verifier for a stream that has not started yet.
    pub fn new() -> (verifier: Self)
        ensures
            verifier@ == initial_state(),
    {
        let verifier = Verifier { started: false, finished: false, open: None, steps: Vec::new() };
        assert(verifier@.steps =~= Seq::<Seq<char>>::empty());
        verifier
    }

    /// Whether the run has reached a terminal event.
    pub fn is_finished(&self) -> (finished: bool)
        ensures
            finished == self@.finished,
    {
        self.finished
    }

    /// Checks one event against the rules, and records it.
    pub fn verify(&mut self, event: &Event) -> (checked: Result<(), Error>)
        ensures
            final(self)@ == next_state(old(self)@, *event),
            checked is Ok <==> complaint(old(self)@, *event) is None,
            checked matches Err(e) ==> e is Protocol && complaint(old(self)@, *event) == Some(
                e.text(),
            ),
    {
        let kind = event.event_type();
        if self.finished {
            return Err(Error::protocol(cat(kind.as_str().to_owned(), " arrived after the run had already finished")));
        }
        if kind == EventType::Raw || kind == EventType::Custom {
            return Ok(());
        }
        if !self.started && kind != EventType::RunStarted {
            return Err(Error::protocol(cat(kind.as_str().to_owned(), " arrived before RUN_STARTED")));
        }
        match event {
            Event::RunStarted(_) => {
                if self.started {
                    return Err(Error::protocol("RUN_STARTED arrived twice in one stream".to_owned()));
                }
                self.started = true;
                Ok(())
            },
            Event::RunFinished(p) => {
                self.finished = true;
                self.check_closed(&p.outcome)
            },
            Event::RunError(_) => {
                self.finished = true;
                Ok(())
            },
            Event::ToolCallResult(p) => {
                let id = p.tool_call_id.as_str();
                if self.is_open(StreamKind::Tool, id) {
                    return Err(Error::protocol(cat(about(kind, StreamKind::Tool, id), ", which has not ended yet")));
                }
                Ok(())
            },
            Event::StepStarted(p) => {
                if self.step_index(&p.step_name).is_some() {
                    let q = quoted(p.step_name.as_str());
                    return Err(Error::protocol(cat(cat("STEP_STARTED for ".to_owned(), q.as_str()), ", which is already running")));
                }
                self.steps.push(p.step_name.clone());
                proof {
                    assert(self@.steps =~= old(self)@.steps.push(p.step_name@));
                    assert(self@.steps == next_state(old(self)@, *event).steps);
                }
                Ok(())
            },
            Event::StepFinished(p) => {
                match self.step_index(&p.step_name) {
                    Some(i) => {
                        let ghost before = self.steps@;
                        self.steps.remove(i);
                        proof {
                            let names = before.map_values(|n: StepName| n@);
                            names.index_of_first_ensures(p.step_name@);
                            assert(names.index_of_first(p.step_name@) == Some(i as int));
                            assert(self@.steps =~= names.remove(i as int));
                            assert(self@.steps == next_state(old(self)@, *event).steps);
                        }
                        Ok(())
                    },
                    None => {
                        proof {
                            old(self)@.steps.index_of_first_ensures(p.step_name@);
                        }
                        let q = quoted(p.step_name.as_str());
                        Err(Error::protocol(cat(cat("STEP_FINISHED for ".to_owned(), q.as_str()), ", which never started")))
                    },
                }
            },
            _ => self.bracketed(event, kind),
        }
    }

    /// Checks the stream ended where it was supposed to: a transport that
    /// stops before the agent finished the run is a truncated response, which
    /// otherwise looks exactly like a short answer.
    pub fn finish(&self) -> (checked: Result<(), Error>)
        ensures
            checked is Ok <==> end_complaint(self@) is None,
            checked matches Err(e) ==> e is Protocol && end_complaint(self@) == Some(e.text()),
    {
        if !self.started {
            return Err(Error::protocol("the stream ended before RUN_STARTED".to_owned()));
        }
        if !self.finished {
            return Err(Error::protocol("the stream ended before RUN_FINISHED or RUN_ERROR".to_owned()));
        }
        Ok(())
    }

    /// Whether the open stream is `stream` with id `id`.
    fn is_open(&self, stream: StreamKind, id: &str) -> (open: bool)
        ensures
            open == (self@.open == Some((stream, id@))),
    {
        match &self.open {
            Some((k, open_id)) => *k == stream && text_eq(open_id.as_str(), id),
            None => false,
        }
    }

    /// Where `name` is among the running steps, first occurrence.
    fn step_index(&self, name: &StepName) -> (found: Option<usize>)
        ensures
            found is None <==> !self@.steps.contains(name@),
            found matches Some(i) ==> i < self@.steps.len() && self@.steps[i as int] == name@
                && forall|j: int| 0 <= j < i ==> self@.steps[j] != name@,
    {
        let mut i: usize = 0;
        while i < self.steps.len()
            invariant
                i <= self.steps@.len(),
                forall|j: int| 0 <= j < i ==> self@.steps[j] != name@,
            decreases self.steps@.len() - i,
        {
            if text_eq(self.steps[i].as_str(), name.as_str()) {
                assert(self@.steps[i as int] == name@);
                return Some(i);
            }
            i = i + 1;
        }
        proof {
            if self@.steps.contains(name@) {
                let j = choose|j: int| 0 <= j < self@.steps.len() && self@.steps[j] == name@;
                assert(self@.steps[j] != name@);
            }
        }
        None
    }

    /// The checks `RUN_FINISHED` makes once the run is marked over.
    fn check_closed(&self, outcome: &Option<RunOutcome>) -> (checked: Result<(), Error>)
        ensures
            checked is Ok <==> finish_complaint(self@, *outcome) is None,
            checked matches Err(e) ==> e is Protocol && finish_complaint(self@, *outcome) == Some(e.text()),
    {
        match &self.open {
            Some((k, id)) => {
                let q = quoted(id.as_str());
                let text = cat(cat(cat(cat("RUN_FINISHED arrived while ".to_owned(), k.noun_str()), " "), q.as_str()), " was still open");
                return Err(Error::protocol(text));
            },
            None => {},
        }
        if self.steps.len() > 0 {
            let q = quoted(self.steps[0].as_str());
            return Err(Error::protocol(cat(cat("RUN_FINISHED arrived while step ".to_owned(), q.as_str()), " was still running")));
        }
        match outcome {
            Some(o) => o.validate(),
            None => Ok(()),
        }
    }

    /// The rules for an event that belongs to a bracketed stream.
    fn bracketed(&mut self, event: &Event, kind: EventType) -> (checked: Result<(), Error>)
        requires
            !old(self)@.finished,
            old(self)@.started,
            kind == event.kind(),
            !unordered(kind),
            !(event is RunStarted || event is RunFinished || event is RunError
                || event is ToolCallResult || event is StepStarted || event is StepFinished),
        ensures
            final(self)@ == next_state(old(self)@, *event),
            checked is Ok <==> complaint(old(self)@, *event) is None,
            checked matches Err(e) ==> e is Protocol && complaint(old(self)@, *event) == Some(
                e.text(),
            ),
    {
        match bracket(event) {
            None => Ok(()),
            Some((stream, part, id)) => {
                if part == Bracket::Open {
                    match &self.open {
                        None => {
                            self.open = Some((stream, id.to_owned()));
                            Ok(())
                        },
                        Some((other, other_id)) => {
                            if *other == stream && text_eq(other_id.as_str(), id) {
                                Err(Error::protocol(cat(about(kind, stream, id), ", which is already open")))
                            } else {
                                let q = quoted(other_id.as_str());
                                let text = cat(cat(cat(cat(cat(about(kind, stream, id), " while "), other.noun_str()), " "), q.as_str()), " is still open");
                                Err(Error::protocol(text))
                            }
                        },
                    }
                } else {
                    let (same_family, same_id) = match &self.open {
                        Some((other, other_id)) => (*other == stream, text_eq(other_id.as_str(), id)),
                        None => (false, false),
                    };
                    if same_family && same_id {
                        if part == Bracket::Close {
                            self.open = None;
                        }
                        Ok(())
                    } else if same_family {
                        let q = match &self.open {
                            Some((_, other_id)) => quoted(other_id.as_str()),
                            None => quoted(""),
                        };
                        let text = cat(cat(cat(cat(cat(about(kind, stream, id), ", but "), stream.noun_str()), " "), q.as_str()), " is the one open");
                        Err(Error::protocol(text))
                    } else {
                        Err(Error::protocol(cat(about(kind, stream, id), ", which was never opened")))
                    }
                }
            },
        }
    }
}

/// "{kind} for {noun} {id:?}"
fn about(kind: EventType, stream: StreamKind, id: &str) -> (text: String)
    ensures
        text@ == about_text(kind, stream, id@),
{
    let q = quoted(id);
    cat(cat(cat(cat(kind.as_str().to_owned(), " for "), stream.noun_str()), " "), q.as_str())
}

/// Verifies a whole run in one call: every event in order, then the end of
/// the stream.
pub fn verify_all(events: &[Event]) -> (checked: Result<(), Error>)
    ensures
        checked is Ok <==> stream_complaint(events@) is None,
        checked matches Err(e) ==> e is Protocol && stream_complaint(events@) == Some(e.text()),
{
    let mut verifier = Verifier::new();
    let mut i: usize = 0;
    while i < events.len()
        invariant
            i <= events@.len(),
            run_events(initial_state(), events@.take(i as int)) == Ok::<VerifierState, Seq<char>>(verifier@),
        decreases events@.len() - i,
    {
        proof {
            assert(events@.take(i as int + 1).drop_last() =~= events@.take(i as int));
        }
        let checked = verifier.verify(&events[i]);
        match checked {
            Err(e) => {
                proof {
                    let prefix = events@.take(i as int + 1);
                    assert(prefix.last() == events@[i as int]);
                    let rest = events@.subrange(i as int + 1, events@.len() as int);
                    assert(events@ =~= prefix + rest);
                    lemma_error_persists(initial_state(), prefix, rest);
                }
                return Err(e);
            },
            Ok(()) => {},
        }
        i = i + 1;
    }
    proof {
        assert(events@.take(events@.len() as int) =~= events@);
    }
    verifier.finish()
}

/// Once a stream has been rejected, nothing that follows changes the verdict.
pub proof fn lemma_error_persists(s: VerifierState, prefix: Seq<Event>, rest: Seq<Event>)
    requires
        run_events(s, prefix) is Err,
    ensures
        run_events(s, prefix + rest) == run_events(s, prefix),
    decreases rest.len(),
{
    if rest.len() == 0 {
        assert(prefix + rest =~= prefix);
    } else {
        lemma_error_persists(s, prefix, rest.drop_last());
        assert((prefix + rest).drop_last() =~= prefix + rest.drop_last());
    }
}

/// Nothing may follow a finished run: once `RUN_FINISHED` or `RUN_ERROR`
/// has arrived, every event is rejected and the state stays as it is.
pub proof fn law_nothing_follows_a_finished_run(s: VerifierState, event: Event)
    requires
        s.finished,
    ensures
        complaint(s, event) == Some(after_finish_text(event.kind())),
        next_state(s, event) == s,
{
}

/// `RAW` and `CUSTOM` are outside the ordering rules: until the run has
/// finished they are accepted anywhere, before the run started included,
/// and change nothing.
pub proof fn law_raw_and_custom_are_unordered(s: VerifierState, event: Event)
    requires
        event is Raw || event is Custom,
        !s.finished,
    ensures
        complaint(s, event) is None,
        next_state(s, event) == s,
{
}

/// A failing run may abandon what it had open: once the run has started,
/// `RUN_ERROR` is accepted whatever is open, and finishes the run.
pub proof fn law_a_failing_run_may_abandon_what_it_had_open(s: VerifierState, event: Event)
    requires
        event is RunError,
        s.started,
        !s.finished,
    ensures
        complaint(s, event) is None,
        next_state(s, event).finished,
{
}

/// An accepted `RUN_FINISHED` closes a tidy run: nothing was open and no
/// step was running, and the run is over.
pub proof fn law_an_accepted_finish_leaves_nothing_open(s: VerifierState, event: Event)
    requires
        event is RunFinished,
        complaint(s, event) is None,
    ensures
        s.open is None,
        s.steps.len() == 0,
        next_state(s, event).finished,
{
}

/// A step name runs at most once at a time: the running steps never hold a
/// name twice, whatever arrives.
pub proof fn law_running_steps_are_distinct(s: VerifierState, event: Event)
    requires
        s.steps.no_duplicates(),
    ensures
        next_state(s, event).steps.no_duplicates(),
{
    match event {
        Event::StepFinished(p) => {
            s.steps.index_of_first_ensures(p.step_name@);
            match s.steps.index_of_first(p.step_name@) {
                Some(i) => {
                    let r = s.steps.remove(i);
                    assert forall|a: int, b: int| 0 <= a < r.len() && 0 <= b < r.len() && a != b implies r[a] != r[b] by {
                        let a2 = if a < i { a } else { a + 1 };
                        let b2 = if b < i { b } else { b + 1 };
                        assert(r[a] == s.steps[a2]);
                        assert(r[b] == s.steps[b2]);
                    }
                },
                None => {},
            }
        },
        Event::StepStarted(p) => {
            if !s.steps.contains(p.step_name@) {
                let r = s.steps.push(p.step_name@);
                assert forall|a: int, b: int| 0 <= a < r.len() && 0 <= b < r.len() && a != b implies r[a] != r[b] by {
                    if a < s.steps.len() && b == s.steps.len() {
                        assert(s.steps[a] == r[a]);
                    }
                    if b < s.steps.len() && a == s.steps.len() {
                        assert(s.steps[b] == r[b]);
                    }
                }
            }
        },
        _ => {},
    }
}

/// Whether `event` opens the stream `stream` under `id`.
pub open spec fn opens_stream(event: Event, stream: StreamKind, id: Seq<char>) -> bool {
    match event {
        Event::TextMessageStart(p) => stream == StreamKind::Text && p.message_id@ == id,
        Event::ToolCallStart(p) => stream == StreamKind::Tool && p.tool_call_id@ == id,
        Event::ReasoningMessageStart(p) => stream == StreamKind::Reasoning && p.message_id@ == id,
        _ => false,
    }
}

/// Whether `event` adds to the stream `stream` under `id`.
pub open spec fn adds_to_stream(event: Event, stream: StreamKind, id: Seq<char>) -> bool {
    match event {
        Event::TextMessageContent(p) => stream == StreamKind::Text && p.message_id@ == id,
        Event::ToolCallArgs(p) => stream == StreamKind::Tool && p.tool_call_id@ == id,
        Event::ReasoningMessageContent(p) => stream == StreamKind::Reasoning && p.message_id@ == id,
        _ => false,
    }
}

/// Whether `event` closes the stream `stream` under `id`.
pub open spec fn closes_stream(event: Event, stream: StreamKind, id: Seq<char>) -> bool {
    match event {
        Event::TextMessageEnd(p) => stream == StreamKind::Text && p.message_id@ == id,
        Event::ToolCallEnd(p) => stream == StreamKind::Tool && p.tool_call_id@ == id,
        Event::ReasoningMessageEnd(p) => stream == StreamKind::Reasoning && p.message_id@ == id,
        _ => false,
    }
}

/// A `TOOL_CALL_RESULT` may not answer a call that has not ended: while the
/// call is the open stream, its result is refused.
pub proof fn law_a_result_waits_for_its_call_to_end(s: VerifierState, event: Event)
    requires
        event matches Event::ToolCallResult(p) && s.open == Some((StreamKind::Tool, p.tool_call_id@)),
    ensures
        complaint(s, event) is Some,
        next_state(s, event).open == s.open,
{
}

/// Once the run has started, a `TOOL_CALL_RESULT` for a call that is not
/// the open stream is accepted and changes nothing that is open.
pub proof fn law_a_result_for_an_ended_call_is_accepted(s: VerifierState, event: Event)
    requires
        event matches Event::ToolCallResult(p) && s.open != Some((StreamKind::Tool, p.tool_call_id@)),
        s.started,
        !s.finished,
    ensures
        complaint(s, event) is None,
        next_state(s, event) == s,
{
}

/// Content and ends need their stream open: an event that adds to or
/// closes a stream other than the open one is refused.
pub proof fn law_a_stream_must_be_open_to_go_on(s: VerifierState, event: Event, stream: StreamKind, id: Seq<char>)
    requires
        adds_to_stream(event, stream, id) || closes_stream(event, stream, id),
        s.open != Some((stream, id)),
    ensures
        complaint(s, event) is Some,
{
}

/// One stream at a time: a start while a stream is open is refused, the
/// open one's own id included.
pub proof fn law_a_start_waits_for_the_open_stream(s: VerifierState, event: Event, stream: StreamKind, id: Seq<char>)
    requires
        opens_stream(event, stream, id),
        s.open is Some,
    ensures
        complaint(s, event) is Some,
{
}

/// A stream runs from its start to its end: in a started run with nothing
/// open, its start is accepted and opens it; then its content is accepted
/// and keeps it open, and its end is accepted and closes it.
pub proof fn law_a_stream_runs_from_start_to_end(
    s: VerifierState,
    start: Event,
    next: Event,
    stream: StreamKind,
    id: Seq<char>,
)
    requires
        s.started,
        !s.finished,
        s.open is None,
        opens_stream(start, stream, id),
        adds_to_stream(next, stream, id) || closes_stream(next, stream, id),
    ensures
        complaint(s, start) is None,
        next_state(s, start).open == Some((stream, id)),
        complaint(next_state(s, start), next) is None,
        adds_to_stream(next, stream, id) ==> next_state(next_state(s, start), next).open == Some((stream, id)),
        closes_stream(next, stream, id) ==> next_state(next_state(s, start), next).open is None,
{
}

/// `STEP_FINISHED` needs a running step of that name, and a running step
/// cannot start again.
pub proof fn law_steps_finish_only_what_runs(s: VerifierState, event: Event)
    ensures
        event matches Event::StepFinished(p) && !s.steps.contains(p.step_name@) ==> complaint(s, event) is Some,
        event matches Event::StepStarted(p) && s.steps.contains(p.step_name@) ==> complaint(s, event) is Some,
{
}

/// A step started in a running run can then finish: the start is accepted
/// and runs the step, and its finish is accepted and ends it.
pub proof fn law_a_started_step_can_finish(s: VerifierState, start: Event, finish: Event, name: Seq<char>)
    requires
        s.started,
        !s.finished,
        !s.steps.contains(name),
        start matches Event::StepStarted(p) && p.step_name@ == name,
        finish matches Event::StepFinished(p) && p.step_name@ == name,
    ensures
        complaint(s, start) is None,
        next_state(s, start).steps.contains(name),
        complaint(next_state(s, start), finish) is None,
        !next_state(next_state(s, start), finish).steps.contains(name),
{
    let after = next_state(s, start);
    assert(after.steps == s.steps.push(name));
    assert(after.steps[s.steps.len() as int] == name);
    after.steps.index_of_first_ensures(name);
    let i = after.steps.index_of_first(name)->Some_0;
    assert(i == s.steps.len()) by {
        if i < s.steps.len() {
            assert(s.steps[i] == after.steps[i]);
        }
    }
    let r = after.steps.remove(i);
    assert(r =~= s.steps);
}

/// The run opens once: before `RUN_STARTED` only `RAW` and `CUSTOM` are
/// accepted, and a second `RUN_STARTED` is refused.
pub proof fn law_the_run_opens_once(s: VerifierState, event: Event)
    ensures
        !s.started && !(event is RunStarted) && !(event is Raw) && !(event is Custom) ==> complaint(s, event) is Some,
        s.started && event is RunStarted ==> complaint(s, event) is Some,
        !s.started && !s.finished && event is RunStarted ==> complaint(s, event) is None && next_state(s, event).started,
{
}

} // verus!
