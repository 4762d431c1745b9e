//! The server's ordering state machine.
//!
//! Content without a start is a bug that otherwise surfaces as a confused
//! frontend, three network hops from where it was caused. The server checks
//! every event it emits:
//!
//! | Rule | Rejected |
//! | --- | --- |
//! | `RunEnded` | anything after `RUN_FINISHED` / `RUN_ERROR` |
//! | `DuplicateRunStarted` | a second `RUN_STARTED` |
//! | `DuplicateStart` | opening a message, reasoning block, tool call or step whose id is already open |
//! | `NotOpen` | content or a terminator for something that was never opened |
//! | `UnknownId` | `TOOL_CALL_RESULT` for a call id that was never introduced |
//! | `OutOfOrder` | `TOOL_CALL_RESULT` before the call's `TOOL_CALL_END` |
//! | `OpenAtFinish` | `RUN_FINISHED` while something is open |
//!
//! `RUN_ERROR` is exempt from `OpenAtFinish`: a run that blew up mid-message
//! could not have closed it. Chunk events are self-contained, so a chunk that
//! names an id closes it rather than needing a start. Everything is keyed by
//! id, so several messages and tool calls may be open at once.

use vstd::prelude::*;

use crate::event::{Event, EventType};
use crate::registry::{
    lemma_set_insert_has, lemma_set_insert_keeps, lemma_set_remove_within, set_insert, set_remove, IdSet,
};
use crate::text::{cat, debug_quoted, quoted};
use crate::order::{in_str_order, insert_in_order, lemma_in_str_order, same_texts, strictly_ascending, texts_view};

verus! {

/// The ordering rule an event broke.
#[derive(Clone, Copy, Debug, PartialEq, Eq, Structural, Hash)]
pub enum Rule {
    /// Anything after the run ended.
    RunEnded,
    /// A second `RUN_STARTED`.
    DuplicateRunStarted,
    /// Opening something whose id is already open.
    DuplicateStart,
    /// Content or a terminator for something that is not open.
    NotOpen,
    /// A result for a tool call that was never introduced.
    UnknownId,
    /// A result before the call's end.
    OutOfOrder,
    /// `RUN_FINISHED` while something is open.
    OpenAtFinish,
}

impl Rule {
    /// The rule's name in error text.
    pub open spec fn label(self) -> Seq<char> {
        match self {
            Rule::RunEnded => "run-ended"@,
            Rule::DuplicateRunStarted => "duplicate-run-started"@,
            Rule::DuplicateStart => "duplicate-start"@,
            Rule::NotOpen => "not-open"@,
            Rule::UnknownId => "unknown-id"@,
            Rule::OutOfOrder => "out-of-order"@,
            Rule::OpenAtFinish => "open-at-finish"@,
        }
    }

    /// The rule's name in error text.
    pub fn as_str(&self) -> (label: &'static str)
        ensures
            label@ == self.label(),
    {
        match self {
            Rule::RunEnded => "run-ended",
            Rule::DuplicateRunStarted => "duplicate-run-started",
            Rule::DuplicateStart => "duplicate-start",
            Rule::NotOpen => "not-open",
            Rule::UnknownId => "unknown-id",
            Rule::OutOfOrder => "out-of-order",
            Rule::OpenAtFinish => "open-at-finish",
        }
    }
}

/// An event the ordering state machine rejected. Its detail always ends
/// with the dump of what was open when the event came, in every build, so
/// a report from a release build is as complete as one from a debug build.
#[derive(Clone, Debug, PartialEq)]
pub struct VerificationError {
    /// The type of the rejected event.
    pub event: EventType,
    /// The rule it broke.
    pub rule: Rule,
    /// What was wrong, naming the id, followed by the dump of what was open
    /// at the time.
    pub detail: String,
}

impl VerificationError {
    /// "{event}: {rule}: {detail}"
    pub open spec fn text(&self) -> Seq<char> {
        self.event.wire_name() + ": "@ + self.rule.label() + ": "@ + self.detail@
    }

    /// The error as a human reads it: the event, the rule and the detail.
    pub fn to_string(&self) -> (text: String)
        ensures
            text@ == self.text(),
    {
        cat(cat(cat(cat(self.event.as_str().to_owned(), ": "), self.rule.as_str()), ": "), self.detail.as_str())
    }
}

/// The id-keyed families a message id can open.
#[derive(Clone, Copy, Debug, PartialEq, Eq, Structural)]
pub enum Family {
    /// Text messages.
    Message,
    /// Reasoning blocks.
    Reasoning,
    /// Reasoning messages.
    ReasoningMessage,
}

impl Family {
    /// What the errors call a member of this family.
    pub open spec fn noun(self) -> Seq<char> {
        match self {
            Family::Message => "message"@,
            Family::Reasoning => "reasoning block"@,
            Family::ReasoningMessage => "reasoning message"@,
        }
    }

    /// What the errors call a member of this family.
    pub fn noun_str(&self) -> (noun: &'static str)
        ensures
            noun@ == self.noun(),
    {
        match self {
            Family::Message => "message",
            Family::Reasoning => "reasoning block",
            Family::ReasoningMessage => "reasoning message",
        }
    }
}

/// What the server's verifier knows, each collection in the order its
/// members arrived and without repeats.
pub struct ServerState {
    /// `RUN_STARTED` went out.
    pub started: bool,
    /// `RUN_FINISHED` or `RUN_ERROR` went out.
    pub ended: bool,
    /// Open text messages.
    pub messages: Seq<Seq<char>>,
    /// Open reasoning blocks.
    pub reasoning: Seq<Seq<char>>,
    /// Open reasoning messages.
    pub reasoning_messages: Seq<Seq<char>>,
    /// Open tool calls.
    pub tool_calls: Seq<Seq<char>>,
    /// Every tool call id introduced so far.
    pub known_tool_calls: Seq<Seq<char>>,
    /// Running steps.
    pub steps: Seq<Seq<char>>,
}

/// The state before anything went out.
pub open spec fn server_initial() -> ServerState {
    ServerState {
        started: false,
        ended: false,
        messages: Seq::empty(),
        reasoning: Seq::empty(),
        reasoning_messages: Seq::empty(),
        tool_calls: Seq::empty(),
        known_tool_calls: Seq::empty(),
        steps: Seq::empty(),
    }
}

/// The open members of a family.
pub open spec fn family_set(s: ServerState, f: Family) -> Seq<Seq<char>> {
    match f {
        Family::Message => s.messages,
        Family::Reasoning => s.reasoning,
        Family::ReasoningMessage => s.reasoning_messages,
    }
}

/// `s` with the open members of a family replaced.
pub open spec fn with_family(s: ServerState, f: Family, set: Seq<Seq<char>>) -> ServerState {
    match f {
        Family::Message => ServerState { messages: set, ..s },
        Family::Reasoning => ServerState { reasoning: set, ..s },
        Family::ReasoningMessage => ServerState { reasoning_messages: set, ..s },
    }
}

/// The family and id of an event that opens (`Bracket` 0), continues (1) or
/// closes (2) a message-id-keyed entity.
pub open spec fn family_of(event: Event) -> Option<(Family, int, Seq<char>)> {
    match event {
        Event::TextMessageStart(p) => Some((Family::Message, 0, p.message_id@)),
        Event::TextMessageContent(p) => Some((Family::Message, 1, p.message_id@)),
        Event::TextMessageEnd(p) => Some((Family::Message, 2, p.message_id@)),
        Event::ReasoningStart(p) => Some((Family::Reasoning, 0, p.message_id@)),
        Event::ReasoningEnd(p) => Some((Family::Reasoning, 2, p.message_id@)),
        Event::ReasoningMessageStart(p) => Some((Family::ReasoningMessage, 0, p.message_id@)),
        Event::ReasoningMessageContent(p) => Some((Family::ReasoningMessage, 1, p.message_id@)),
        Event::ReasoningMessageEnd(p) => Some((Family::ReasoningMessage, 2, p.message_id@)),
        _ => None,
    }
}

/// `" {label}=[\"a\", \"b\"]"` for a non-empty collection, its members
/// in the order of `str`; nothing for an empty one.
pub open spec fn dump_entry(label: Seq<char>, set: Seq<Seq<char>>) -> Seq<char> {
    if set.len() == 0 {
        Seq::empty()
    } else {
        " "@ + label + "=["@ + quoted_list(in_str_order(set)) + "]"@
    }
}

/// The members of `set`, quoted and separated by `", "`.
pub open spec fn quoted_list(set: Seq<Seq<char>>) -> Seq<char>
    decreases set.len(),
{
    if set.len() == 0 {
        Seq::empty()
    } else if set.len() == 1 {
        debug_quoted(set[0])
    } else {
        quoted_list(set.drop_last()) + ", "@ + debug_quoted(set.last())
    }
}

/// The list of everything open, appended to every rejection.
pub open spec fn dump(s: ServerState) -> Seq<char> {
    let entries = dump_entry("messages"@, s.messages) + dump_entry("reasoning"@, s.reasoning)
        + dump_entry("reasoning_messages"@, s.reasoning_messages) + dump_entry("tool_calls"@, s.tool_calls)
        + dump_entry("steps"@, s.steps);
    if entries.len() == 0 {
        " [nothing open]"@
    } else {
        " [open:"@ + entries + "]"@
    }
}

/// The first thing still open, oldest first within each family.
pub open spec fn first_open(s: ServerState) -> Option<Seq<char>> {
    if s.messages.len() > 0 {
        Some("message "@ + debug_quoted(s.messages[0]) + " is still open"@)
    } else if s.reasoning_messages.len() > 0 {
        Some("reasoning message "@ + debug_quoted(s.reasoning_messages[0]) + " is still open"@)
    } else if s.reasoning.len() > 0 {
        Some("reasoning block "@ + debug_quoted(s.reasoning[0]) + " is still open"@)
    } else if s.tool_calls.len() > 0 {
        Some("tool call "@ + debug_quoted(s.tool_calls[0]) + " is still open"@)
    } else if s.steps.len() > 0 {
        Some("step "@ + debug_quoted(s.steps[0]) + " is still open"@)
    } else {
        None
    }
}

/// The rule `event` breaks in state `s`, and what is said about it, before
/// the dump of what is open.
pub open spec fn violation(s: ServerState, event: Event) -> Option<(Rule, Seq<char>)> {
    if s.ended {
        Some((Rule::RunEnded, "the run already ended"@))
    } else {
        match event {
            Event::RunStarted(_) => if s.started {
                Some((Rule::DuplicateRunStarted, "the run already started"@))
            } else {
                None
            },
            Event::RunFinished(_) => match first_open(s) {
                Some(detail) => Some((Rule::OpenAtFinish, detail)),
                None => None,
            },
            Event::ToolCallStart(p) => if s.tool_calls.contains(p.tool_call_id@) {
                Some((Rule::DuplicateStart, "tool call "@ + debug_quoted(p.tool_call_id@) + " is already open"@))
            } else {
                None
            },
            Event::ToolCallArgs(p) => if s.tool_calls.contains(p.tool_call_id@) {
                None
            } else {
                Some((Rule::NotOpen, "tool call "@ + debug_quoted(p.tool_call_id@) + " is not open"@))
            },
            Event::ToolCallEnd(p) => if s.tool_calls.contains(p.tool_call_id@) {
                None
            } else {
                Some((Rule::NotOpen, "tool call "@ + debug_quoted(p.tool_call_id@) + " is not open"@))
            },
            Event::ToolCallResult(p) => if !s.known_tool_calls.contains(p.tool_call_id@) {
                Some((Rule::UnknownId, "tool call "@ + debug_quoted(p.tool_call_id@) + " was never started"@))
            } else if s.tool_calls.contains(p.tool_call_id@) {
                Some((Rule::OutOfOrder, "tool call "@ + debug_quoted(p.tool_call_id@) + " has no TOOL_CALL_END yet"@))
            } else {
                None
            },
            Event::StepStarted(p) => if s.steps.contains(p.step_name@) {
                Some((Rule::DuplicateStart, "step "@ + debug_quoted(p.step_name@) + " is already open"@))
            } else {
                None
            },
            Event::StepFinished(p) => if s.steps.contains(p.step_name@) {
                None
            } else {
                Some((Rule::NotOpen, "step "@ + debug_quoted(p.step_name@) + " is not open"@))
            },
            _ => match family_of(event) {
                Some((f, part, id)) => if part == 0 {
                    if family_set(s, f).contains(id) {
                        Some((Rule::DuplicateStart, f.noun() + " "@ + debug_quoted(id) + " is already open"@))
                    } else {
                        None
                    }
                } else if family_set(s, f).contains(id) {
                    None
                } else {
                    Some((Rule::NotOpen, f.noun() + " "@ + debug_quoted(id) + " is not open"@))
                },
                None => None,
            },
        }
    }
}

/// The state after `event` is accepted in state `s`; a rejected event
/// changes nothing.
pub open spec fn server_next(s: ServerState, event: Event) -> ServerState {
    if violation(s, event) is Some {
        s
    } else {
        match event {
            Event::RunStarted(_) => ServerState { started: true, ..s },
            Event::RunFinished(_) => ServerState { ended: true, ..s },
            Event::RunError(_) => ServerState { ended: true, ..s },
            Event::TextMessageChunk(p) => match p.message_id {
                Some(id) => ServerState { messages: set_remove(s.messages, id@), ..s },
                None => s,
            },
            Event::ReasoningMessageChunk(p) => match p.message_id {
                Some(id) => ServerState { reasoning_messages: set_remove(s.reasoning_messages, id@), ..s },
                None => s,
            },
            Event::ToolCallStart(p) => ServerState {
                tool_calls: s.tool_calls.push(p.tool_call_id@),
                known_tool_calls: set_insert(s.known_tool_calls, p.tool_call_id@),
                ..s
            },
            Event::ToolCallEnd(p) => ServerState { tool_calls: set_remove(s.tool_calls, p.tool_call_id@), ..s },
            Event::ToolCallChunk(p) => match p.tool_call_id {
                Some(id) => ServerState {
                    tool_calls: set_remove(s.tool_calls, id@),
                    known_tool_calls: set_insert(s.known_tool_calls, id@),
                    ..s
                },
                None => s,
            },
            Event::StepStarted(p) => ServerState { steps: s.steps.push(p.step_name@), ..s },
            Event::StepFinished(p) => ServerState { steps: set_remove(s.steps, p.step_name@), ..s },
            _ => match family_of(event) {
                Some((f, part, id)) => if part == 0 {
                    with_family(s, f, family_set(s, f).push(id))
                } else if part == 2 {
                    with_family(s, f, set_remove(family_set(s, f), id))
                } else {
                    s
                },
                None => s,
            },
        }
    }
}

/// Taking out an id just added where it was not leaves the set as it was.
proof fn lemma_push_then_remove(set: Seq<Seq<char>>, id: Seq<char>)
    requires
        !set.contains(id),
    ensures
        set.push(id).contains(id),
        set_remove(set.push(id), id) == set,
        !set_remove(set.push(id), id).contains(id),
{
    let p = set.push(id);
    assert(p[set.len() as int] == id);
    p.index_of_first_ensures(id);
    let i = p.index_of_first(id)->Some_0;
    assert(i == set.len()) by {
        if i < set.len() {
            assert(p[i] == set[i]);
        }
    }
    assert(p.remove(i) =~= set);
}

/// A stream must be open to go on, and cannot open twice: content or an end
/// for a message, reasoning block, reasoning message or tool call that is
/// not open is refused, and so is a start for one that is.
pub proof fn law_streams_go_on_only_while_open(s: ServerState, event: Event)
    ensures
        event matches Event::TextMessageStart(p) && s.messages.contains(p.message_id@) ==> violation(s, event) is Some,
        event matches Event::TextMessageContent(p) && !s.messages.contains(p.message_id@) ==> violation(s, event) is Some,
        event matches Event::TextMessageEnd(p) && !s.messages.contains(p.message_id@) ==> violation(s, event) is Some,
        event matches Event::ReasoningStart(p) && s.reasoning.contains(p.message_id@) ==> violation(s, event) is Some,
        event matches Event::ReasoningEnd(p) && !s.reasoning.contains(p.message_id@) ==> violation(s, event) is Some,
        event matches Event::ReasoningMessageStart(p) && s.reasoning_messages.contains(p.message_id@) ==> violation(s, event) is Some,
        event matches Event::ReasoningMessageContent(p) && !s.reasoning_messages.contains(p.message_id@) ==> violation(s, event) is Some,
        event matches Event::ReasoningMessageEnd(p) && !s.reasoning_messages.contains(p.message_id@) ==> violation(s, event) is Some,
        event matches Event::ToolCallStart(p) && s.tool_calls.contains(p.tool_call_id@) ==> violation(s, event) is Some,
        event matches Event::ToolCallArgs(p) && !s.tool_calls.contains(p.tool_call_id@) ==> violation(s, event) is Some,
        event matches Event::ToolCallEnd(p) && !s.tool_calls.contains(p.tool_call_id@) ==> violation(s, event) is Some,
{
}

/// `STEP_FINISHED` needs a running step of that name, and a running step
/// cannot start again.
pub proof fn law_steps_finish_only_what_runs(s: ServerState, event: Event)
    ensures
        event matches Event::StepFinished(p) && !s.steps.contains(p.step_name@) ==> violation(s, event) is Some,
        event matches Event::StepStarted(p) && s.steps.contains(p.step_name@) ==> violation(s, event) is Some,
{
}

/// A `TOOL_CALL_RESULT` answers a call that was started and has ended: one
/// for an id never started, or for a call still open, is refused, and one
/// for a started call that ended is accepted.
pub proof fn law_a_result_answers_an_ended_call(s: ServerState, event: Event)
    ensures
        event matches Event::ToolCallResult(p) && !s.known_tool_calls.contains(p.tool_call_id@) ==> violation(s, event) is Some,
        event matches Event::ToolCallResult(p) && s.tool_calls.contains(p.tool_call_id@) ==> violation(s, event) is Some,
        event matches Event::ToolCallResult(p) && !s.ended && s.known_tool_calls.contains(p.tool_call_id@)
            && !s.tool_calls.contains(p.tool_call_id@) ==> violation(s, event) is None,
{
}

/// A step started in a live run can finish: the start is accepted and runs
/// the step, and its finish is accepted and ends it.
pub proof fn law_a_started_step_can_finish(s: ServerState, start: Event, finish: Event, name: Seq<char>)
    requires
        !s.ended,
        !s.steps.contains(name),
        start matches Event::StepStarted(p) && p.step_name@ == name,
        finish matches Event::StepFinished(p) && p.step_name@ == name,
    ensures
        violation(s, start) is None,
        server_next(s, start).steps.contains(name),
        violation(server_next(s, start), finish) is None,
        server_next(server_next(s, start), finish).steps == s.steps,
{
    lemma_push_then_remove(s.steps, name);
}

/// A text message opened in a live run takes content and closes: its start,
/// its content and its end are each accepted, and after the end it is no
/// longer open.
pub proof fn law_a_message_runs_from_start_to_end(
    s: ServerState,
    start: Event,
    content: Event,
    end: Event,
    id: Seq<char>,
)
    requires
        !s.ended,
        !s.messages.contains(id),
        start matches Event::TextMessageStart(p) && p.message_id@ == id,
        content matches Event::TextMessageContent(p) && p.message_id@ == id,
        end matches Event::TextMessageEnd(p) && p.message_id@ == id,
    ensures
        violation(s, start) is None,
        violation(server_next(s, start), content) is None,
        server_next(server_next(s, start), content) == server_next(s, start),
        violation(server_next(s, start), end) is None,
        server_next(server_next(s, start), end).messages == s.messages,
{
    lemma_push_then_remove(s.messages, id);
}

/// A tool call opened in a live run takes arguments, closes, and can then
/// be answered: its start, its arguments and its end are each accepted,
/// and after the end its result is accepted too.
pub proof fn law_a_tool_call_runs_from_start_to_result(
    s: ServerState,
    start: Event,
    args: Event,
    end: Event,
    result: Event,
    id: Seq<char>,
)
    requires
        !s.ended,
        !s.tool_calls.contains(id),
        start matches Event::ToolCallStart(p) && p.tool_call_id@ == id,
        args matches Event::ToolCallArgs(p) && p.tool_call_id@ == id,
        end matches Event::ToolCallEnd(p) && p.tool_call_id@ == id,
        result matches Event::ToolCallResult(p) && p.tool_call_id@ == id,
    ensures
        violation(s, start) is None,
        violation(server_next(s, start), args) is None,
        violation(server_next(s, start), end) is None,
        server_next(server_next(s, start), end).tool_calls == s.tool_calls,
        violation(server_next(server_next(s, start), end), result) is None,
{
    lemma_push_then_remove(s.tool_calls, id);
    let known = server_next(s, start).known_tool_calls;
    assert(known.contains(id)) by {
        if !s.known_tool_calls.contains(id) {
            assert(known[s.known_tool_calls.len() as int] == id);
        }
    }
}

/// Tracks what is open so that a misordered event can be named precisely.
#[derive(Debug, Default)]
pub struct Verifier {
    started: bool,
    ended: bool,
    messages: IdSet,
    reasoning: IdSet,
    reasoning_messages: IdSet,
    tool_calls: IdSet,
    known_tool_calls: IdSet,
    steps: IdSet,
}

impl View for Verifier {
    type V = ServerState;

    closed spec fn view(&self) -> ServerState {
        ServerState {
            started: self.started,
            ended: self.ended,
            messages: self.messages@,
            reasoning: self.reasoning@,
            reasoning_messages: self.reasoning_messages@,
            tool_calls: self.tool_calls@,
            known_tool_calls: self.known_tool_calls@,
            steps: self.steps@,
        }
    }
}

impl Verifier {
    /// A verifier before anything went out.
    pub fn new() -> (verifier: Self)
        ensures
            verifier@ == server_initial(),
    {
        Verifier {
            started: false,
            ended: false,
            messages: IdSet::new(),
            reasoning: IdSet::new(),
            reasoning_messages: IdSet::new(),
            tool_calls: IdSet::new(),
            known_tool_calls: IdSet::new(),
            steps: IdSet::new(),
        }
    }

    /// Checks `event` against the state machine and folds it in.
    pub fn observe(&mut self, event: &Event) -> (checked: Result<(), VerificationError>)
        ensures
            final(self)@ == server_next(old(self)@, *event),
            checked is Ok <==> violation(old(self)@, *event) is None,
            checked matches Err(e) ==> {
                &&& e.event == event.kind()
                &&& violation(old(self)@, *event) == Some((e.rule, e.detail@.subrange(0, e.detail@.len() - dump(old(self)@).len())))
                &&& e.detail@ == violation(old(self)@, *event)->Some_0.1 + dump(old(self)@)
            },
    {
        if self.ended {
            return Err(self.fail(event, Rule::RunEnded, "the run already ended".to_owned()));
        }
        match event {
            Event::RunStarted(_) => {
                if self.started {
                    return Err(self.fail(event, Rule::DuplicateRunStarted, "the run already started".to_owned()));
                }
                self.started = true;
                Ok(())
            },
            Event::RunFinished(_) => {
                match self.first_open() {
                    Some(detail) => Err(self.fail(event, Rule::OpenAtFinish, detail)),
                    None => {
                        self.ended = true;
                        Ok(())
                    },
                }
            },
            Event::RunError(_) => {
                self.ended = true;
                Ok(())
            },
            Event::TextMessageChunk(p) => {
                match &p.message_id {
                    Some(id) => {
                        self.messages.remove(id.as_str());
                    },
                    None => {},
                }
                Ok(())
            },
            Event::ReasoningMessageChunk(p) => {
                match &p.message_id {
                    Some(id) => {
                        self.reasoning_messages.remove(id.as_str());
                    },
                    None => {},
                }
                Ok(())
            },
            Event::ToolCallStart(p) => {
                let id = p.tool_call_id.as_str();
                if self.tool_calls.contains(id) {
                    return Err(self.fail(event, Rule::DuplicateStart, about("tool call ", id, " is already open")));
                }
                self.tool_calls.push(id);
                self.known_tool_calls.insert(id);
                Ok(())
            },
            Event::ToolCallArgs(p) => {
                let id = p.tool_call_id.as_str();
                if !self.tool_calls.contains(id) {
                    return Err(self.fail(event, Rule::NotOpen, about("tool call ", id, " is not open")));
                }
                Ok(())
            },
            Event::ToolCallEnd(p) => {
                let id = p.tool_call_id.as_str();
                if !self.tool_calls.contains(id) {
                    return Err(self.fail(event, Rule::NotOpen, about("tool call ", id, " is not open")));
                }
                self.tool_calls.remove(id);
                Ok(())
            },
            Event::ToolCallChunk(p) => {
                match &p.tool_call_id {
                    Some(id) => {
                        self.tool_calls.remove(id.as_str());
                        self.known_tool_calls.insert(id.as_str());
                    },
                    None => {},
                }
                Ok(())
            },
            Event::ToolCallResult(p) => {
                let id = p.tool_call_id.as_str();
                if !self.known_tool_calls.contains(id) {
                    return Err(self.fail(event, Rule::UnknownId, about("tool call ", id, " was never started")));
                }
                if self.tool_calls.contains(id) {
                    return Err(self.fail(event, Rule::OutOfOrder, about("tool call ", id, " has no TOOL_CALL_END yet")));
                }
                Ok(())
            },
            Event::StepStarted(p) => {
                let name = p.step_name.as_str();
                if self.steps.contains(name) {
                    return Err(self.fail(event, Rule::DuplicateStart, about("step ", name, " is already open")));
                }
                self.steps.push(name);
                Ok(())
            },
            Event::StepFinished(p) => {
                let name = p.step_name.as_str();
                if !self.steps.contains(name) {
                    return Err(self.fail(event, Rule::NotOpen, about("step ", name, " is not open")));
                }
                self.steps.remove(name);
                Ok(())
            },
            _ => self.family_event(event),
        }
    }

    /// The rules for the message-id-keyed families.
    fn family_event(&mut self, event: &Event) -> (checked: Result<(), VerificationError>)
        requires
            !old(self)@.ended,
            !(event is RunStarted || event is RunFinished || event is RunError
                || event is TextMessageChunk || event is ReasoningMessageChunk
                || event is ToolCallStart || event is ToolCallArgs || event is ToolCallEnd
                || event is ToolCallChunk || event is ToolCallResult || event is StepStarted
                || event is StepFinished),
        ensures
            final(self)@ == server_next(old(self)@, *event),
            checked is Ok <==> violation(old(self)@, *event) is None,
            checked matches Err(e) ==> {
                &&& e.event == event.kind()
                &&& violation(old(self)@, *event) == Some((e.rule, e.detail@.subrange(0, e.detail@.len() - dump(old(self)@).len())))
                &&& e.detail@ == violation(old(self)@, *event)->Some_0.1 + dump(old(self)@)
            },
    {
        let (family, part, id) = match event {
            Event::TextMessageStart(p) => (Family::Message, 0u8, p.message_id.as_str()),
            Event::TextMessageContent(p) => (Family::Message, 1u8, p.message_id.as_str()),
            Event::TextMessageEnd(p) => (Family::Message, 2u8, p.message_id.as_str()),
            Event::ReasoningStart(p) => (Family::Reasoning, 0u8, p.message_id.as_str()),
            Event::ReasoningEnd(p) => (Family::Reasoning, 2u8, p.message_id.as_str()),
            Event::ReasoningMessageStart(p) => (Family::ReasoningMessage, 0u8, p.message_id.as_str()),
            Event::ReasoningMessageContent(p) => (Family::ReasoningMessage, 1u8, p.message_id.as_str()),
            Event::ReasoningMessageEnd(p) => (Family::ReasoningMessage, 2u8, p.message_id.as_str()),
            _ => {
                return Ok(());
            },
        };
        assert(family_of(*event) == Some((family, part as int, id@)));
        let present = match family {
            Family::Message => self.messages.contains(id),
            Family::Reasoning => self.reasoning.contains(id),
            Family::ReasoningMessage => self.reasoning_messages.contains(id),
        };
        if part == 0 {
            if present {
                let noun = cat(family.noun_str().to_owned(), " ");
                let text = about(noun.as_str(), id, " is already open");
                return Err(self.fail(event, Rule::DuplicateStart, text));
            }
            match family {
                Family::Message => self.messages.push(id),
                Family::Reasoning => self.reasoning.push(id),
                Family::ReasoningMessage => self.reasoning_messages.push(id),
            }
            Ok(())
        } else {
            if !present {
                let noun = cat(family.noun_str().to_owned(), " ");
                let text = about(noun.as_str(), id, " is not open");
                return Err(self.fail(event, Rule::NotOpen, text));
            }
            if part == 2 {
                match family {
                    Family::Message => {
                        self.messages.remove(id);
                    },
                    Family::Reasoning => {
                        self.reasoning.remove(id);
                    },
                    Family::ReasoningMessage => {
                        self.reasoning_messages.remove(id);
                    },
                }
            }
            Ok(())
        }
    }

    /// A rejection of `event` for breaking `rule`, with the dump of what is
    /// open appended.
    fn fail(&self, event: &Event, rule: Rule, detail: String) -> (error: VerificationError)
        ensures
            error.event == event.kind(),
            error.rule == rule,
            error.detail@ == detail@ + dump(self@),
            error.detail@.subrange(0, error.detail@.len() - dump(self@).len()) == detail@,
    {
        let open = self.dump();
        let full = cat(detail, open.as_str());
        assert(full@.subrange(0, full@.len() - dump(self@).len()) =~= detail@);
        VerificationError { event: event.event_type(), rule, detail: full }
    }

    /// The first thing still open at `RUN_FINISHED`, if any.
    fn first_open(&self) -> (found: Option<String>)
        ensures
            match found {
                Some(t) => first_open(self@) == Some(t@),
                None => first_open(self@) is None,
            },
    {
        match self.messages.first() {
            Some(id) => {
                return Some(about("message ", id, " is still open"));
            },
            None => {},
        }
        match self.reasoning_messages.first() {
            Some(id) => {
                return Some(about("reasoning message ", id, " is still open"));
            },
            None => {},
        }
        match self.reasoning.first() {
            Some(id) => {
                return Some(about("reasoning block ", id, " is still open"));
            },
            None => {},
        }
        match self.tool_calls.first() {
            Some(id) => {
                return Some(about("tool call ", id, " is still open"));
            },
            None => {},
        }
        match self.steps.first() {
            Some(id) => {
                return Some(about("step ", id, " is still open"));
            },
            None => {},
        }
        None
    }

    /// Everything currently open, for the rejection text.
    fn dump(&self) -> (text: String)
        ensures
            text@ == dump(self@),
    {
        let entries = cat(cat(cat(cat(
            dump_entry_of(&self.messages, "messages"),
            dump_entry_of(&self.reasoning, "reasoning").as_str()),
            dump_entry_of(&self.reasoning_messages, "reasoning_messages").as_str()),
            dump_entry_of(&self.tool_calls, "tool_calls").as_str()),
            dump_entry_of(&self.steps, "steps").as_str());
        if entries.as_str().is_empty() {
            " [nothing open]".to_owned()
        } else {
            cat(cat(" [open:".to_owned(), entries.as_str()), "]")
        }
    }
}

/// `" {label}=[…]"` for the members of `set` in the order of `str`, or
/// nothing when it is empty.
fn dump_entry_of(set: &IdSet, label: &str) -> (text: String)
    ensures
        text@ == dump_entry(label@, set@),
{
    if set.len() == 0 {
        return String::new();
    }
    let mut sorted: Vec<String> = Vec::new();
    let mut i: usize = 0;
    assert(texts_view(sorted@) =~= Seq::<Seq<char>>::empty());
    while i < set.len()
        invariant
            i <= set@.len(),
            strictly_ascending(texts_view(sorted@)),
            same_texts(texts_view(sorted@), set@.take(i as int)),
        decreases set@.len() - i,
    {
        let ghost before = texts_view(sorted@);
        let id = set.get(i);
        insert_in_order(&mut sorted, id);
        proof {
            let prev = set@.take(i as int);
            let next = set@.take(i + 1);
            assert(next =~= prev.push(id@));
            assert forall|k: Seq<char>| texts_view(sorted@).contains(k) <==> next.contains(k) by {
                if prev.contains(k) {
                    let w = choose|w: int| 0 <= w < prev.len() && #[trigger] prev[w] == k;
                    assert(next[w] == k);
                }
                if next.contains(k) {
                    let w = choose|w: int| 0 <= w < next.len() && #[trigger] next[w] == k;
                    if w < i {
                        assert(prev[w] == k);
                    }
                }
                if k == id@ {
                    assert(next[i as int] == k);
                }
                assert(before.contains(k) <==> prev.contains(k));
                assert(texts_view(sorted@).contains(k) <==> (before.contains(k) || k == id@));
            }
        }
        i = i + 1;
    }
    let ghost listed = texts_view(sorted@);
    proof {
        assert(set@.take(set@.len() as int) =~= set@);
        lemma_in_str_order(listed, set@);
    }
    assert(sorted@.len() > 0) by {
        assert(set@.contains(set@[0]));
        assert(listed.contains(set@[0]));
    }
    let mut list = quoted(sorted[0].as_str());
    let mut j: usize = 1;
    proof {
        assert(listed.subrange(0, 1) =~= seq![listed[0]]);
    }
    while j < sorted.len()
        invariant
            1 <= j <= sorted@.len(),
            listed == texts_view(sorted@),
            list@ == quoted_list(listed.subrange(0, j as int)),
        decreases sorted@.len() - j,
    {
        let q = quoted(sorted[j].as_str());
        list = cat(cat(list, ", "), q.as_str());
        proof {
            let next = listed.subrange(0, j as int + 1);
            assert(next.drop_last() =~= listed.subrange(0, j as int));
        }
        j = j + 1;
    }
    proof {
        assert(listed.subrange(0, listed.len() as int) =~= listed);
    }
    cat(cat(cat(cat(" ".to_owned(), label), "=["), list.as_str()), "]")
}

/// "{prefix}{id:?}{suffix}"
fn about(prefix: &str, id: &str, suffix: &str) -> (text: String)
    ensures
        text@ == prefix@ + debug_quoted(id@) + suffix@,
{
    let q = quoted(id);
    cat(cat(prefix.to_owned(), q.as_str()), suffix)
}

/// Nothing is accepted after the run ended: once `RUN_FINISHED` or
/// `RUN_ERROR` went out, every event breaks `RunEnded` and changes nothing.
pub proof fn law_nothing_is_accepted_after_the_run_ended(s: ServerState, event: Event)
    requires
        s.ended,
    ensures
        violation(s, event) == Some((Rule::RunEnded, "the run already ended"@)),
        server_next(s, event) == s,
{
}

/// `RUN_ERROR` is exempt from `OpenAtFinish`: until the run ended it is
/// accepted whatever is open, and it ends the run.
pub proof fn law_run_error_is_always_accepted(s: ServerState, event: Event)
    requires
        event is RunError,
        !s.ended,
    ensures
        violation(s, event) is None,
        server_next(s, event).ended,
{
}

/// An accepted `RUN_FINISHED` means nothing was open: no message, reasoning
/// block, reasoning message, tool call or step.
pub proof fn law_an_accepted_finish_leaves_nothing_open(s: ServerState, event: Event)
    requires
        event is RunFinished,
        violation(s, event) is None,
    ensures
        s.messages.len() == 0,
        s.reasoning.len() == 0,
        s.reasoning_messages.len() == 0,
        s.tool_calls.len() == 0,
        s.steps.len() == 0,
        server_next(s, event).ended,
{
}

/// Every open tool call is a known one.
pub open spec fn open_calls_known(s: ServerState) -> bool {
    forall|i: int| 0 <= i < s.tool_calls.len() ==> s.known_tool_calls.contains(#[trigger] s.tool_calls[i])
}

/// Whatever is accepted, every open tool call stays a known one — so a
/// result for a call that is still open is out of order, never unknown.
pub proof fn law_open_calls_stay_known(s: ServerState, event: Event)
    requires
        open_calls_known(s),
    ensures
        open_calls_known(server_next(s, event)),
{
    let t = server_next(s, event);
    if violation(s, event) is None {
        match event {
            Event::ToolCallStart(p) => {
                assert forall|i: int| 0 <= i < t.tool_calls.len() implies t.known_tool_calls.contains(#[trigger] t.tool_calls[i]) by {
                    if i < s.tool_calls.len() {
                        assert(t.tool_calls[i] == s.tool_calls[i]);
                        lemma_set_insert_keeps(s.known_tool_calls, p.tool_call_id@, s.tool_calls[i]);
                    } else {
                        lemma_set_insert_has(s.known_tool_calls, p.tool_call_id@);
                    }
                }
            },
            Event::ToolCallEnd(p) => {
                assert forall|i: int| 0 <= i < t.tool_calls.len() implies t.known_tool_calls.contains(#[trigger] t.tool_calls[i]) by {
                    assert(t.tool_calls.contains(t.tool_calls[i]));
                    lemma_set_remove_within(s.tool_calls, p.tool_call_id@, t.tool_calls[i]);
                }
            },
            Event::ToolCallChunk(p) => match p.tool_call_id {
                Some(id) => {
                    assert forall|i: int| 0 <= i < t.tool_calls.len() implies t.known_tool_calls.contains(#[trigger] t.tool_calls[i]) by {
                        assert(t.tool_calls.contains(t.tool_calls[i]));
                        lemma_set_remove_within(s.tool_calls, id@, t.tool_calls[i]);
                        lemma_set_insert_keeps(s.known_tool_calls, id@, t.tool_calls[i]);
                    }
                },
                None => {},
            },
            _ => {},
        }
    }
}

} // verus!
