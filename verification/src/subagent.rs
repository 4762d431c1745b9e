//! What a consumer sees of an agent's subagents.
//!
//! A client older than the subagent surface rejects the `SUBAGENT_*` event
//! types while decoding, and a producer with such consumers must not send
//! them. [`SubagentVisibility`] picks the shape of the stream, and
//! [`SubagentFilter`] is the transformer that produces it.
//!
//! In [`Hidden`](SubagentVisibility::Hidden) mode the filter judges every
//! event by who owns what it speaks of. The first event that opens a message,
//! a tool call or an activity decides its owner for the run: the subagent it
//! is attributed to, or the parent. An untagged continuation of a subagent's
//! message is the subagent's, and so is a tool call carried by one of its
//! messages. An untagged chunk that names no id is read as the consuming
//! normalizer reads it: it continues the parent's open stream of its kind
//! when there is one, and otherwise a subagent's when one is open. A
//! `MESSAGES_SNAPSHOT` restates the owners of the messages it carries, and an
//! activity is owned by the snapshot that last replaced it.

use vstd::prelude::*;

use crate::event::{
    BaseEvent, Event, MessagesSnapshotEvent, ReasoningEncryptedValueSubtype, RunFinishedEvent,
    RunStartedEvent,
};
use crate::ids::{text_eq, MessageId, RunId};
use crate::input::RunAgentInput;
use crate::message::{Message, ToolCall};
use crate::outcome::{Interrupt, RunOutcome};
use crate::registry::{assign, lemma_lookup_assign, lookup, opt_text, OwnerLog};
use crate::transform::StreamTransformer;

verus! {

/// What a consumer sees of an agent's subagents.
#[derive(Clone, Copy, Debug, PartialEq, Eq, Structural, Hash)]
pub enum SubagentVisibility {
    /// The full surface: the lifecycle events, and `subagentRunId` on
    /// everything a subagent produced.
    Attributed,
    /// The pre-subagent shape: no lifecycle events, no subagent steps and no
    /// `subagentRunId` anywhere. A subagent's own text arrives as the
    /// parent's work.
    Inline,
    /// Only the parent's own events, plus the run's shared state whoever
    /// published it.
    Hidden,
}

impl Default for SubagentVisibility {
    fn default() -> (mode: Self)
        ensures
            mode == SubagentVisibility::Attributed,
    {
        SubagentVisibility::Attributed
    }
}

impl SubagentVisibility {
    /// The transformer for this mode.
    pub fn filter(self) -> (filter: SubagentFilter)
        ensures
            filter@ == fresh_filter(self),
    {
        SubagentFilter::new(self)
    }

    /// The transformer for [`Inline`](Self::Inline).
    pub fn inline() -> (filter: SubagentFilter)
        ensures
            filter@ == fresh_filter(SubagentVisibility::Inline),
    {
        SubagentVisibility::Inline.filter()
    }

    /// The transformer for [`Hidden`](Self::Hidden).
    pub fn hidden() -> (filter: SubagentFilter)
        ensures
            filter@ == fresh_filter(SubagentVisibility::Hidden),
    {
        SubagentVisibility::Hidden.filter()
    }
}

/// The three families of chunked stream.
#[derive(Clone, Copy, Debug, PartialEq, Eq, Structural)]
pub enum ChunkKind {
    /// Text messages.
    Text,
    /// Tool calls.
    Tool,
    /// Reasoning messages.
    Reasoning,
}

/// A log of owners: an id, and `None` for the parent or the subagent run
/// that owns it.
pub type OwnerEntries = Seq<(Seq<char>, Option<Seq<char>>)>;

/// What a [`SubagentFilter`] knows.
pub struct FilterView {
    /// The mode it applies.
    pub mode: SubagentVisibility,
    /// Who owns each message id.
    pub messages: OwnerEntries,
    /// Who owns each tool call id.
    pub calls: OwnerEntries,
    /// Who owns each activity id.
    pub activities: OwnerEntries,
    /// The parent's open chunkable stream.
    pub parent_stream: Option<(ChunkKind, Seq<char>)>,
    /// Each subagent run's open chunkable stream.
    pub sub_streams: Seq<(Seq<char>, ChunkKind, Seq<char>)>,
}

/// A filter that has seen nothing.
pub open spec fn fresh_filter(mode: SubagentVisibility) -> FilterView {
    FilterView {
        mode,
        messages: Seq::empty(),
        calls: Seq::empty(),
        activities: Seq::empty(),
        parent_stream: None,
        sub_streams: Seq::empty(),
    }
}

/// The owner of `id`: `None`, the parent, when no one claimed it.
pub open spec fn owner_of(log: OwnerEntries, id: Seq<char>) -> Option<Seq<char>> {
    match lookup(log, id) {
        Some(owner) => owner,
        None => None,
    }
}

/// The log after `claimant` opens `id`: the first to open an id owns it.
pub open spec fn claimed(log: OwnerEntries, id: Seq<char>, claimant: Option<Seq<char>>) -> OwnerEntries {
    if lookup(log, id) is Some {
        log
    } else {
        assign(log, id, claimant)
    }
}

/// The text of a run id, if there is one.
pub open spec fn run_text(run: Option<RunId>) -> Option<Seq<char>> {
    match run {
        Some(r) => Some(r@),
        None => None,
    }
}

/// The subagent run an event is attributed to.
pub open spec fn event_tag(event: Event) -> Option<Seq<char>> {
    run_text(event.base_of().subagent_run_id)
}

/// The streams with the one of subagent run `run` closed.
pub open spec fn without_run(
    streams: Seq<(Seq<char>, ChunkKind, Seq<char>)>,
    run: Seq<char>,
) -> Seq<(Seq<char>, ChunkKind, Seq<char>)>
    decreases streams.len(),
{
    if streams.len() == 0 {
        streams
    } else {
        let rest = without_run(streams.drop_last(), run);
        if streams.last().0 == run {
            rest
        } else {
            rest.push(streams.last())
        }
    }
}

/// The streams with every stream of `id` closed.
pub open spec fn without_stream(
    streams: Seq<(Seq<char>, ChunkKind, Seq<char>)>,
    id: Seq<char>,
) -> Seq<(Seq<char>, ChunkKind, Seq<char>)>
    decreases streams.len(),
{
    if streams.len() == 0 {
        streams
    } else {
        let rest = without_stream(streams.drop_last(), id);
        if streams.last().2 == id {
            rest
        } else {
            rest.push(streams.last())
        }
    }
}

/// `st` with `owner`'s open stream now `(kind, id)`.
pub open spec fn opened_stream(st: FilterView, owner: Option<Seq<char>>, kind: ChunkKind, id: Seq<char>) -> FilterView {
    match owner {
        None => FilterView { parent_stream: Some((kind, id)), ..st },
        Some(run) => FilterView { sub_streams: without_run(st.sub_streams, run).push((run, kind, id)), ..st },
    }
}

/// `st` with every stream of `id` closed.
pub open spec fn closed_stream(st: FilterView, id: Seq<char>) -> FilterView {
    FilterView {
        parent_stream: match st.parent_stream {
            Some((k, x)) => if x == id { None } else { st.parent_stream },
            None => None,
        },
        sub_streams: without_stream(st.sub_streams, id),
        ..st
    }
}

/// Whether an untagged chunk of `kind` that names no id continues a
/// subagent's stream: the parent has none of that kind open, and a subagent
/// has.
pub open spec fn routed_to_subagent(st: FilterView, kind: ChunkKind) -> bool {
    &&& !(st.parent_stream matches Some((k, _)) && k == kind)
    &&& exists|i: int| 0 <= i < st.sub_streams.len() && (#[trigger] st.sub_streams[i]).1 == kind
}

/// `st` after `tag` opens message `id`, and with it a stream of `kind` if
/// it is a stream.
pub open spec fn opened_message(st: FilterView, id: Seq<char>, tag: Option<Seq<char>>, kind: Option<ChunkKind>) -> FilterView {
    let log = claimed(st.messages, id, tag);
    let next = FilterView { messages: log, ..st };
    match kind {
        Some(k) => opened_stream(next, owner_of(log, id), k, id),
        None => next,
    }
}

/// Who a call opened by `tag`, carried by message `parent`, would belong to
/// if it were new: its tagger, or else the owner of its message.
pub open spec fn call_claimant(st: FilterView, tag: Option<Seq<char>>, parent: Option<MessageId>) -> Option<Seq<char>> {
    match tag {
        Some(t) => Some(t),
        None => match parent {
            Some(m) => owner_of(st.messages, m@),
            None => None,
        },
    }
}

/// `st` after `tag` opens tool call `id`, carried by message `parent`.
pub open spec fn opened_call(st: FilterView, id: Seq<char>, tag: Option<Seq<char>>, parent: Option<MessageId>) -> FilterView {
    let log = claimed(st.calls, id, call_claimant(st, tag, parent));
    opened_stream(FilterView { calls: log, ..st }, owner_of(log, id), ChunkKind::Tool, id)
}

/// The calls' log with each of `calls` owned by `owner`.
pub open spec fn assign_calls(log: OwnerEntries, calls: Seq<ToolCall>, owner: Option<Seq<char>>) -> OwnerEntries
    decreases calls.len(),
{
    if calls.len() == 0 {
        log
    } else {
        assign(assign_calls(log, calls.drop_last(), owner), calls.last().id@, owner)
    }
}

/// Who a message in a snapshot belongs to: the subagent it is attributed to,
/// or, for an unattributed answer to a call, the call's owner.
pub open spec fn message_owner(st: FilterView, m: Message) -> Option<Seq<char>> {
    match run_text(m.spec_subagent_run_id()) {
        Some(r) => Some(r),
        None => match m {
            Message::Tool(t) => owner_of(st.calls, t.tool_call_id@),
            _ => None,
        },
    }
}

/// `st` after a snapshot restates message `m`: the message, and the calls it
/// carries, belong to its owner.
pub open spec fn restated_one(st: FilterView, m: Message) -> FilterView {
    let owner = message_owner(st, m);
    let next = FilterView { messages: assign(st.messages, m.spec_id()@, owner), ..st };
    match m {
        Message::Assistant(a) => match a.tool_calls {
            Some(calls) => FilterView { calls: assign_calls(next.calls, calls@, owner), ..next },
            None => next,
        },
        _ => next,
    }
}

/// The state after a snapshot restates `msgs`, in order, and the messages of
/// it the parent owns.
pub open spec fn restated(st: FilterView, msgs: Seq<Message>) -> (FilterView, Seq<Message>)
    decreases msgs.len(),
{
    if msgs.len() == 0 {
        (st, Seq::empty())
    } else {
        let (before, kept) = restated(st, msgs.drop_last());
        let m = msgs.last();
        let next = restated_one(before, m);
        if message_owner(before, m) is None {
            (next, kept.push(m))
        } else {
            (next, kept)
        }
    }
}

/// The hidden-mode state after `event`.
pub open spec fn hidden_next(st: FilterView, event: Event) -> FilterView {
    let tag = event_tag(event);
    match event {
        Event::SubagentFinished(p) => FilterView { sub_streams: without_run(st.sub_streams, p.subagent_run_id@), ..st },
        Event::SubagentError(p) => FilterView { sub_streams: without_run(st.sub_streams, p.subagent_run_id@), ..st },
        Event::TextMessageStart(p) => opened_message(st, p.message_id@, tag, Some(ChunkKind::Text)),
        Event::TextMessageEnd(p) => closed_stream(st, p.message_id@),
        Event::TextMessageChunk(p) => match p.message_id {
            Some(id) => opened_message(st, id@, tag, Some(ChunkKind::Text)),
            None => st,
        },
        Event::ReasoningStart(p) => opened_message(st, p.message_id@, tag, None),
        Event::ReasoningMessageStart(p) => opened_message(st, p.message_id@, tag, Some(ChunkKind::Reasoning)),
        Event::ReasoningMessageEnd(p) => closed_stream(st, p.message_id@),
        Event::ReasoningMessageChunk(p) => match p.message_id {
            Some(id) => opened_message(st, id@, tag, Some(ChunkKind::Reasoning)),
            None => st,
        },
        Event::ToolCallStart(p) => opened_call(st, p.tool_call_id@, tag, p.parent_message_id),
        Event::ToolCallChunk(p) => match p.tool_call_id {
            Some(id) => opened_call(st, id@, tag, p.parent_message_id),
            None => st,
        },
        Event::ToolCallEnd(p) => closed_stream(st, p.tool_call_id@),
        Event::ActivitySnapshot(p) => if p.replace || lookup(st.activities, p.message_id@) is None {
            FilterView { activities: assign(st.activities, p.message_id@, tag), ..st }
        } else {
            st
        },
        Event::ActivityDelta(p) => FilterView { activities: claimed(st.activities, p.message_id@, tag), ..st },
        Event::MessagesSnapshot(p) => if tag is None {
            restated(st, p.messages@).0
        } else {
            st
        },
        Event::RunStarted(p) => match p.input {
            Some(input) => if tag is None {
                restated(st, input.messages@).0
            } else {
                st
            },
            None => st,
        },
        _ => st,
    }
}

/// Restating messages changes no mode.
pub proof fn lemma_restated_mode(st: FilterView, msgs: Seq<Message>)
    ensures
        restated(st, msgs).0.mode == st.mode,
    decreases msgs.len(),
{
    if msgs.len() > 0 {
        lemma_restated_mode(st, msgs.drop_last());
    }
}

/// The hidden mode stays the filter's mode.
pub proof fn lemma_hidden_next_mode(st: FilterView, event: Event)
    ensures
        hidden_next(st, event).mode == st.mode,
{
    match event {
        Event::MessagesSnapshot(p) => lemma_restated_mode(st, p.messages@),
        Event::RunStarted(p) => match p.input {
            Some(input) => lemma_restated_mode(st, input.messages@),
            None => {},
        },
        _ => {},
    }
}

/// Whether the hidden mode lets `event` through in state `st`.
pub open spec fn hidden_keeps(st: FilterView, event: Event) -> bool {
    let tag = event_tag(event);
    let parents = |log: OwnerEntries, id: Seq<char>| tag is None && owner_of(log, id) is None;
    match event {
        Event::SubagentStarted(_) | Event::SubagentFinished(_) | Event::SubagentError(_) => false,
        Event::TextMessageStart(p) => parents(st.messages, p.message_id@),
        Event::TextMessageContent(p) => parents(st.messages, p.message_id@),
        Event::TextMessageEnd(p) => parents(st.messages, p.message_id@),
        Event::TextMessageChunk(p) => match p.message_id {
            Some(id) => parents(st.messages, id@),
            None => tag is None && !routed_to_subagent(st, ChunkKind::Text),
        },
        Event::ReasoningStart(p) => parents(st.messages, p.message_id@),
        Event::ReasoningMessageStart(p) => parents(st.messages, p.message_id@),
        Event::ReasoningMessageContent(p) => parents(st.messages, p.message_id@),
        Event::ReasoningMessageEnd(p) => parents(st.messages, p.message_id@),
        Event::ReasoningEnd(p) => parents(st.messages, p.message_id@),
        Event::ReasoningMessageChunk(p) => match p.message_id {
            Some(id) => parents(st.messages, id@),
            None => tag is None && !routed_to_subagent(st, ChunkKind::Reasoning),
        },
        Event::ToolCallStart(p) => tag is None
            && owner_of(claimed(st.calls, p.tool_call_id@, call_claimant(st, tag, p.parent_message_id)), p.tool_call_id@) is None,
        Event::ToolCallChunk(p) => match p.tool_call_id {
            Some(id) => tag is None
                && owner_of(claimed(st.calls, id@, call_claimant(st, tag, p.parent_message_id)), id@) is None,
            None => tag is None && !routed_to_subagent(st, ChunkKind::Tool),
        },
        Event::ToolCallArgs(p) => parents(st.calls, p.tool_call_id@),
        Event::ToolCallEnd(p) => parents(st.calls, p.tool_call_id@),
        Event::ToolCallResult(p) => parents(st.calls, p.tool_call_id@),
        Event::ReasoningEncryptedValue(p) => match p.subtype {
            ReasoningEncryptedValueSubtype::ToolCall => parents(st.calls, p.entity_id@),
            ReasoningEncryptedValueSubtype::Message => parents(st.messages, p.entity_id@),
        },
        Event::StateSnapshot(_) | Event::StateDelta(_) => true,
        Event::ActivitySnapshot(p) => owner_of(hidden_next(st, event).activities, p.message_id@) is None,
        Event::ActivityDelta(p) => owner_of(hidden_next(st, event).activities, p.message_id@) is None,
        _ => tag is None,
    }
}

/// `event` with its attribution removed.
pub open spec fn untagged(event: Event) -> Event {
    event.with_base(BaseEvent { subagent_run_id: None, ..event.base_of() })
}

/// Whether `after` is `before` with the attribution of every interrupt it
/// reports removed.
pub open spec fn interrupts_stripped(before: Option<RunOutcome>, after: Option<RunOutcome>) -> bool {
    match before {
        Some(RunOutcome::Interrupt { interrupts }) => after matches Some(RunOutcome::Interrupt { interrupts: i })
            && i@ == interrupts@.map_values(|x: Interrupt| Interrupt { subagent_run_id: None, ..x }),
        _ => after == before,
    }
}

/// Whether `after` is the kept part of `before`, a `RUN_STARTED` whose
/// echoed messages were restated in state `st`.
pub open spec fn run_started_filtered(st: FilterView, before: RunStartedEvent, after: RunStartedEvent) -> bool {
    &&& after == RunStartedEvent { input: after.input, ..before }
    &&& match before.input {
        Some(i) => after.input matches Some(j) && j == RunAgentInput { messages: j.messages, ..i }
            && j.messages@ == restated(st, i.messages@).1,
        None => after.input is None,
    }
}

/// What the hidden mode emits for `event` in state `st`.
pub open spec fn hidden_emits(st: FilterView, event: Event, out: Seq<Event>) -> bool {
    if !hidden_keeps(st, event) {
        out.len() == 0
    } else {
        out.len() == 1 && match event {
            Event::StateSnapshot(_) | Event::StateDelta(_) | Event::ActivitySnapshot(_) | Event::ActivityDelta(_) =>
                out[0] == untagged(event),
            Event::MessagesSnapshot(p) => out[0] matches Event::MessagesSnapshot(q)
                && q == (MessagesSnapshotEvent { messages: q.messages, ..p })
                && q.messages@ == restated(st, p.messages@).1,
            Event::RunStarted(p) => out[0] matches Event::RunStarted(q) && run_started_filtered(st, p, q),
            Event::RunFinished(p) => out[0] matches Event::RunFinished(q)
                && q == (RunFinishedEvent { outcome: q.outcome, ..p })
                && interrupts_stripped(p.outcome, q.outcome),
            _ => out[0] == event,
        }
    }
}

/// What the inline mode emits for `event`: nothing of the lifecycle or of a
/// subagent's steps, and everything else with every attribution removed.
pub open spec fn inline_emits(event: Event, out: Seq<Event>) -> bool {
    match event {
        Event::SubagentStarted(_) | Event::SubagentFinished(_) | Event::SubagentError(_) => out.len() == 0,
        Event::StepStarted(_) | Event::StepFinished(_) => if event_tag(event) is Some {
            out.len() == 0
        } else {
            out == seq![event]
        },
        Event::MessagesSnapshot(p) => {
            &&& out.len() == 1
            &&& out[0] matches Event::MessagesSnapshot(q)
            &&& q == (MessagesSnapshotEvent { messages: q.messages, base: BaseEvent { subagent_run_id: None, ..p.base }, ..p })
            &&& q.messages@ == p.messages@.map_values(|m: Message| m.retagged(None))
        },
        Event::RunStarted(p) => {
            &&& out.len() == 1
            &&& out[0] matches Event::RunStarted(q)
            &&& q == (RunStartedEvent { input: q.input, base: BaseEvent { subagent_run_id: None, ..p.base }, ..p })
            &&& match p.input {
                Some(i) => {
                    &&& q.input matches Some(j)
                    &&& j == (RunAgentInput { messages: j.messages, ..i })
                    &&& j.messages@ == i.messages@.map_values(|m: Message| m.retagged(None))
                },
                None => q.input is None,
            }
        },
        Event::RunFinished(p) => {
            &&& out.len() == 1
            &&& out[0] matches Event::RunFinished(q)
            &&& q == (RunFinishedEvent { outcome: q.outcome, base: BaseEvent { subagent_run_id: None, ..p.base }, ..p })
            &&& interrupts_stripped(p.outcome, q.outcome)
        },
        _ => out == seq![untagged(event)],
    }
}

/// The texts of the subagents' streams.
pub open spec fn streams_view(v: Seq<(String, ChunkKind, String)>) -> Seq<(Seq<char>, ChunkKind, Seq<char>)> {
    v.map_values(|e: (String, ChunkKind, String)| (e.0@, e.1, e.2@))
}

/// The transformer behind [`SubagentVisibility`].
#[derive(Debug)]
pub struct SubagentFilter {
    mode: SubagentVisibility,
    messages: OwnerLog,
    calls: OwnerLog,
    activities: OwnerLog,
    parent_stream: Option<(ChunkKind, String)>,
    sub_streams: Vec<(String, ChunkKind, String)>,
}

impl View for SubagentFilter {
    type V = FilterView;

    closed spec fn view(&self) -> FilterView {
        FilterView {
            mode: self.mode,
            messages: self.messages@,
            calls: self.calls@,
            activities: self.activities@,
            parent_stream: match self.parent_stream {
                Some((k, x)) => Some((k, x@)),
                None => None,
            },
            sub_streams: streams_view(self.sub_streams@),
        }
    }
}

/// The subagent run an event is attributed to.
fn tag_of(event: &Event) -> (tag: Option<String>)
    ensures
        opt_text(tag) == event_tag(*event),
{
    match event.subagent_run_id() {
        Some(run) => Some(run.as_str().to_owned()),
        None => None,
    }
}

/// A borrowed view of an optional string.
fn as_text(s: &Option<String>) -> (t: Option<&str>)
    ensures
        match t {
            Some(x) => opt_text(*s) == Some(x@),
            None => s is None,
        },
{
    match s {
        Some(x) => Some(x.as_str()),
        None => None,
    }
}

/// The streams without those matching `key`: by subagent run when
/// `by_run`, by stream id otherwise.
fn streams_without(streams: &Vec<(String, ChunkKind, String)>, key: &str, by_run: bool) -> (kept: Vec<(String, ChunkKind, String)>)
    ensures
        streams_view(kept@) == if by_run {
            without_run(streams_view(streams@), key@)
        } else {
            without_stream(streams_view(streams@), key@)
        },
{
    let ghost all = streams_view(streams@);
    let mut kept: Vec<(String, ChunkKind, String)> = Vec::new();
    let mut i: usize = 0;
    while i < streams.len()
        invariant
            all == streams_view(streams@),
            i <= streams@.len(),
            streams_view(kept@) == if by_run {
                without_run(all.take(i as int), key@)
            } else {
                without_stream(all.take(i as int), key@)
            },
        decreases streams@.len() - i,
    {
        let entry = &streams[i];
        let matched = if by_run { text_eq(entry.0.as_str(), key) } else { text_eq(entry.2.as_str(), key) };
        proof {
            assert(all.take(i as int + 1).drop_last() =~= all.take(i as int));
            assert(all.take(i as int + 1).last() == all[i as int]);
        }
        if !matched {
            let ghost before = kept@;
            kept.push((entry.0.clone(), entry.1, entry.2.clone()));
            proof {
                assert(streams_view(kept@) =~= streams_view(before).push(all[i as int]));
            }
        }
        i = i + 1;
    }
    proof {
        assert(all.take(streams@.len() as int) =~= all);
    }
    kept
}

impl SubagentFilter {
    /// A filter for `mode`.
    pub fn new(mode: SubagentVisibility) -> (filter: Self)
        ensures
            filter@ == fresh_filter(mode),
    {
        let filter = SubagentFilter {
            mode,
            messages: OwnerLog::new(),
            calls: OwnerLog::new(),
            activities: OwnerLog::new(),
            parent_stream: None,
            sub_streams: Vec::new(),
        };
        assert(streams_view(filter.sub_streams@) =~= Seq::empty());
        filter
    }

    /// The mode this filter applies.
    pub fn mode(&self) -> (mode: SubagentVisibility)
        ensures
            mode == self@.mode,
    {
        self.mode
    }

    /// Makes `(kind, id)` the open stream of `owner`.
    fn open_stream(&mut self, owner: Option<&str>, kind: ChunkKind, id: &str)
        ensures
            final(self)@ == opened_stream(old(self)@, match owner { Some(o) => Some(o@), None => None }, kind, id@),
    {
        match owner {
            None => {
                self.parent_stream = Some((kind, id.to_owned()));
            },
            Some(run) => {
                let mut streams = streams_without(&self.sub_streams, run, true);
                let ghost before = streams@;
                streams.push((run.to_owned(), kind, id.to_owned()));
                proof {
                    assert(streams_view(streams@) =~= streams_view(before).push((run@, kind, id@)));
                }
                self.sub_streams = streams;
            },
        }
    }

    /// Closes every stream of `id`.
    fn close_stream(&mut self, id: &str)
        ensures
            final(self)@ == closed_stream(old(self)@, id@),
    {
        let close_parent = match &self.parent_stream {
            Some((_, x)) => text_eq(x.as_str(), id),
            None => false,
        };
        if close_parent {
            self.parent_stream = None;
        }
        self.sub_streams = streams_without(&self.sub_streams, id, false);
    }

    /// Closes the stream of subagent run `run`.
    fn close_run(&mut self, run: &str)
        ensures
            final(self)@ == (FilterView { sub_streams: without_run(old(self)@.sub_streams, run@), ..old(self)@ }),
    {
        self.sub_streams = streams_without(&self.sub_streams, run, true);
    }

    /// Whether an untagged id-less chunk of `kind` continues a subagent's
    /// stream.
    fn routed_to_subagent(&self, kind: ChunkKind) -> (hidden: bool)
        ensures
            hidden == routed_to_subagent(self@, kind),
    {
        let parent_has = match &self.parent_stream {
            Some((k, _)) => *k == kind,
            None => false,
        };
        if parent_has {
            return false;
        }
        let mut i: usize = 0;
        while i < self.sub_streams.len()
            invariant
                i <= self.sub_streams@.len(),
                !(self@.parent_stream matches Some((k, _)) && k == kind),
                forall|j: int| 0 <= j < i ==> (#[trigger] streams_view(self.sub_streams@)[j]).1 != kind,
            decreases self.sub_streams@.len() - i,
        {
            if self.sub_streams[i].1 == kind {
                assert(self@.sub_streams[i as int].1 == kind);
                return true;
            }
            assert(streams_view(self.sub_streams@)[i as int].1 != kind);
            i = i + 1;
        }
        false
    }

    /// Claims message `id` for `tag` if no one has, opening a stream of
    /// `kind` when it is one. Reports whether the parent owned the id before.
    fn open_message(&mut self, id: &str, tag: Option<&str>, kind: Option<ChunkKind>) -> (parents: bool)
        ensures
            final(self)@ == opened_message(old(self)@, id@, match tag { Some(t) => Some(t@), None => None }, kind),
            parents == (owner_of(old(self)@.messages, id@) is None),
    {
        let ghost tagv: Option<Seq<char>> = match tag { Some(t) => Some(t@), None => None };
        let known = self.messages.get(id);
        let parents = match &known {
            Some(o) => o.is_none(),
            None => true,
        };
        let owner: Option<String> = match known {
            Some(o) => o,
            None => {
                self.messages.assign(id, tag);
                proof {
                    lemma_lookup_assign(old(self)@.messages, id@, tagv, id@);
                }
                match tag {
                    Some(t) => Some(t.to_owned()),
                    None => None,
                }
            },
        };
        assert(opt_text(owner) == owner_of(self@.messages, id@));
        match kind {
            Some(k) => {
                let o = as_text(&owner);
                self.open_stream(o, k, id);
            },
            None => {},
        }
        parents
    }

    /// Claims tool call `id`, carried by message `parent`, for `tag` or the
    /// message's owner if no one has, and opens its stream. Reports whether
    /// the parent owns it now.
    fn open_call(&mut self, id: &str, tag: Option<&str>, parent: Option<&MessageId>) -> (parents: bool)
        ensures
            final(self)@ == opened_call(old(self)@, id@, match tag { Some(t) => Some(t@), None => None }, match parent { Some(m) => Some(*m), None => None }),
            parents == (owner_of(claimed(old(self)@.calls, id@, call_claimant(old(self)@, match tag { Some(t) => Some(t@), None => None }, match parent { Some(m) => Some(*m), None => None })), id@) is None),
    {
        let claimant: Option<String> = match tag {
            Some(t) => Some(t.to_owned()),
            None => match parent {
                Some(m) => match self.messages.get(m.as_str()) {
                    Some(o) => o,
                    None => None,
                },
                None => None,
            },
        };
        let ghost claimantv = opt_text(claimant);
        let known = self.calls.get(id);
        let owner: Option<String> = match known {
            Some(o) => o,
            None => {
                let c = as_text(&claimant);
                self.calls.assign(id, c);
                proof {
                    lemma_lookup_assign(old(self)@.calls, id@, claimantv, id@);
                }
                claimant
            },
        };
        assert(opt_text(owner) == owner_of(self@.calls, id@));
        let parents = owner.is_none();
        let o = as_text(&owner);
        self.open_stream(o, ChunkKind::Tool, id);
        parents
    }

    /// Who owns message `id`: `None` for the parent.
    fn message_owner_of(&self, id: &str) -> (owner: Option<String>)
        ensures
            opt_text(owner) == owner_of(self@.messages, id@),
    {
        match self.messages.get(id) {
            Some(o) => o,
            None => None,
        }
    }

    /// Who owns tool call `id`: `None` for the parent.
    fn call_owner_of(&self, id: &str) -> (owner: Option<String>)
        ensures
            opt_text(owner) == owner_of(self@.calls, id@),
    {
        match self.calls.get(id) {
            Some(o) => o,
            None => None,
        }
    }
}

/// Every message with its attribution removed.
fn untag_all(msgs: Vec<Message>) -> (out: Vec<Message>)
    ensures
        out@ == msgs@.map_values(|m: Message| m.retagged(None)),
{
    let ghost all = msgs@;
    let total = msgs.len();
    let mut rest = msgs;
    let mut out: Vec<Message> = Vec::new();
    let mut i: usize = 0;
    while rest.len() > 0
        invariant
            all.len() == total,
            i + rest@.len() == all.len(),
            rest@ == all.skip(i as int),
            out@ == all.take(i as int).map_values(|m: Message| m.retagged(None)),
        decreases rest@.len(),
    {
        let mut m = rest.remove(0);
        proof {
            assert(m == all[i as int]);
            assert(rest@ =~= all.skip(i as int + 1));
        }
        m.set_subagent_run_id(None);
        out.push(m);
        proof {
            assert(out@ =~= all.take(i as int + 1).map_values(|m: Message| m.retagged(None)));
        }
        i = i + 1;
    }
    proof {
        assert(all.take(i as int) =~= all);
    }
    out
}

/// The outcome with the attribution of every interrupt removed.
fn strip_interrupts(outcome: Option<RunOutcome>) -> (stripped: Option<RunOutcome>)
    ensures
        interrupts_stripped(outcome, stripped),
{
    match outcome {
        Some(RunOutcome::Interrupt { interrupts }) => {
            let ghost all = interrupts@;
            let total = interrupts.len();
            let mut rest = interrupts;
            let mut out: Vec<Interrupt> = Vec::new();
            let mut i: usize = 0;
            while rest.len() > 0
                invariant
                    all.len() == total,
                    i + rest@.len() == all.len(),
                    rest@ == all.skip(i as int),
                    out@ == all.take(i as int).map_values(|x: Interrupt| Interrupt { subagent_run_id: None, ..x }),
                decreases rest@.len(),
            {
                let x = rest.remove(0);
                proof {
                    assert(x == all[i as int]);
                    assert(rest@ =~= all.skip(i as int + 1));
                }
                out.push(Interrupt { subagent_run_id: None, ..x });
                proof {
                    assert(out@ =~= all.take(i as int + 1).map_values(|x: Interrupt| Interrupt { subagent_run_id: None, ..x }));
                }
                i = i + 1;
            }
            proof {
                assert(all.take(i as int) =~= all);
            }
            Some(RunOutcome::Interrupt { interrupts: out })
        },
        other => other,
    }
}

impl SubagentFilter {
    /// Restates the owners of `msgs`, in order, and keeps the parent's.
    fn restate(&mut self, msgs: Vec<Message>) -> (kept: Vec<Message>)
        ensures
            final(self)@ == restated(old(self)@, msgs@).0,
            kept@ == restated(old(self)@, msgs@).1,
    {
        let ghost all = msgs@;
        let ghost start = self@;
        let total = msgs.len();
        let mut rest = msgs;
        let mut kept: Vec<Message> = Vec::new();
        let mut i: usize = 0;
        while rest.len() > 0
            invariant
                all.len() == total,
                i + rest@.len() == all.len(),
                rest@ == all.skip(i as int),
                self@ == restated(start, all.take(i as int)).0,
                kept@ == restated(start, all.take(i as int)).1,
            decreases rest@.len(),
        {
            let m = rest.remove(0);
            proof {
                assert(m == all[i as int]);
                assert(rest@ =~= all.skip(i as int + 1));
                assert(all.take(i as int + 1).drop_last() =~= all.take(i as int));
                assert(all.take(i as int + 1).last() == m);
            }
            let ghost before = self@;
            let owner: Option<String> = match m.subagent_run_id() {
                Some(run) => Some(run.as_str().to_owned()),
                None => match &m {
                    Message::Tool(t) => self.call_owner_of(t.tool_call_id.as_str()),
                    _ => None,
                },
            };
            assert(opt_text(owner) == message_owner(before, m));
            let o = as_text(&owner);
            assert(match o { Some(r) => Some(r@), None => None::<Seq<char>> } == opt_text(owner));
            self.messages.assign(m.id().as_str(), o);
            match &m {
                Message::Assistant(a) => match &a.tool_calls {
                    Some(calls) => {
                        let ghost base = self.calls@;
                        let mut j: usize = 0;
                        while j < calls.len()
                            invariant
                                j <= calls@.len(),
                                self.calls@ == assign_calls(base, calls@.take(j as int), opt_text(owner)),
                                self.messages@ == assign(before.messages, m.spec_id()@, opt_text(owner)),
                                self.activities@ == before.activities,
                                self.mode == before.mode,
                                self@.parent_stream == before.parent_stream,
                                match o { Some(r) => Some(r@), None => None::<Seq<char>> } == opt_text(owner),
                                self@.sub_streams == before.sub_streams,
                            decreases calls@.len() - j,
                        {
                            proof {
                                assert(calls@.take(j as int + 1).drop_last() =~= calls@.take(j as int));
                                assert(calls@.take(j as int + 1).last() == calls@[j as int]);
                            }
                            self.calls.assign(calls[j].id.as_str(), o);
                            j = j + 1;
                        }
                        proof {
                            assert(calls@.take(calls@.len() as int) =~= calls@);
                        }
                    },
                    None => {},
                },
                _ => {},
            }
            if owner.is_none() {
                kept.push(m);
            }
            i = i + 1;
        }
        proof {
            assert(all.take(i as int) =~= all);
        }
        kept
    }
}

/// The inline shape of `event`: the lifecycle and a subagent's steps go, and
/// every attribution is removed from what stays.
fn inline_event(event: Event) -> (out: Vec<Event>)
    ensures
        inline_emits(event, out@),
{
    let mut out: Vec<Event> = Vec::new();
    match event {
        Event::SubagentStarted(_) | Event::SubagentFinished(_) | Event::SubagentError(_) => {},
        Event::StepStarted(_) | Event::StepFinished(_) => {
            if !event.is_attributed() {
                out.push(event);
            }
        },
        Event::MessagesSnapshot(p) => {
            let messages = untag_all(p.messages);
            let base = BaseEvent { subagent_run_id: None, ..p.base };
            out.push(Event::MessagesSnapshot(MessagesSnapshotEvent { base, messages }));
        },
        Event::RunStarted(p) => {
            let input = match p.input {
                Some(i) => {
                    let messages = untag_all(i.messages);
                    Some(RunAgentInput { messages, ..i })
                },
                None => None,
            };
            let base = BaseEvent { subagent_run_id: None, ..p.base };
            out.push(Event::RunStarted(RunStartedEvent { base, input, ..p }));
        },
        Event::RunFinished(p) => {
            let outcome = strip_interrupts(p.outcome);
            let base = BaseEvent { subagent_run_id: None, ..p.base };
            out.push(Event::RunFinished(RunFinishedEvent { base, outcome, ..p }));
        },
        other => {
            let mut e = other;
            e.clear_subagent_run_id();
            out.push(e);
        },
    }
    out
}

impl SubagentFilter {
    /// Keeps the parent's events and drops a subagent's, judging an untagged
    /// event by who owns what it speaks of.
    fn hidden(&mut self, event: Event) -> (out: Vec<Event>)
        ensures
            final(self)@ == hidden_next(old(self)@, event),
            hidden_emits(old(self)@, event, out@),
    {
        let tag = tag_of(&event);
        let unattributed = tag.is_none();
        let t = as_text(&tag);
        assert(match t { Some(r) => Some(r@), None => None::<Seq<char>> } == event_tag(event));
        let keep = match &event {
            Event::SubagentStarted(_) => false,
            Event::SubagentFinished(p) => {
                self.close_run(p.subagent_run_id.as_str());
                false
            },
            Event::SubagentError(p) => {
                self.close_run(p.subagent_run_id.as_str());
                false
            },
            Event::TextMessageStart(p) => {
                let parents = self.open_message(p.message_id.as_str(), t, Some(ChunkKind::Text));
                unattributed && parents
            },
            Event::TextMessageContent(p) => unattributed && self.message_owner_of(p.message_id.as_str()).is_none(),
            Event::TextMessageEnd(p) => {
                let parents = self.message_owner_of(p.message_id.as_str()).is_none();
                self.close_stream(p.message_id.as_str());
                unattributed && parents
            },
            Event::TextMessageChunk(p) => match &p.message_id {
                Some(id) => {
                    let parents = self.open_message(id.as_str(), t, Some(ChunkKind::Text));
                    unattributed && parents
                },
                None => unattributed && !self.routed_to_subagent(ChunkKind::Text),
            },
            Event::ReasoningStart(p) => {
                let parents = self.open_message(p.message_id.as_str(), t, None);
                unattributed && parents
            },
            Event::ReasoningMessageStart(p) => {
                let parents = self.open_message(p.message_id.as_str(), t, Some(ChunkKind::Reasoning));
                unattributed && parents
            },
            Event::ReasoningMessageContent(p) => unattributed && self.message_owner_of(p.message_id.as_str()).is_none(),
            Event::ReasoningMessageEnd(p) => {
                let parents = self.message_owner_of(p.message_id.as_str()).is_none();
                self.close_stream(p.message_id.as_str());
                unattributed && parents
            },
            Event::ReasoningEnd(p) => unattributed && self.message_owner_of(p.message_id.as_str()).is_none(),
            Event::ReasoningMessageChunk(p) => match &p.message_id {
                Some(id) => {
                    let parents = self.open_message(id.as_str(), t, Some(ChunkKind::Reasoning));
                    unattributed && parents
                },
                None => unattributed && !self.routed_to_subagent(ChunkKind::Reasoning),
            },
            Event::ToolCallStart(p) => {
                let parents = self.open_call(p.tool_call_id.as_str(), t, p.parent_message_id.as_ref());
                unattributed && parents
            },
            Event::ToolCallChunk(p) => match &p.tool_call_id {
                Some(id) => {
                    let parents = self.open_call(id.as_str(), t, p.parent_message_id.as_ref());
                    unattributed && parents
                },
                None => unattributed && !self.routed_to_subagent(ChunkKind::Tool),
            },
            Event::ToolCallArgs(p) => unattributed && self.call_owner_of(p.tool_call_id.as_str()).is_none(),
            Event::ToolCallEnd(p) => {
                let parents = self.call_owner_of(p.tool_call_id.as_str()).is_none();
                self.close_stream(p.tool_call_id.as_str());
                unattributed && parents
            },
            Event::ToolCallResult(p) => unattributed && self.call_owner_of(p.tool_call_id.as_str()).is_none(),
            Event::ReasoningEncryptedValue(p) => match p.subtype {
                ReasoningEncryptedValueSubtype::ToolCall => unattributed && self.call_owner_of(p.entity_id.as_str()).is_none(),
                ReasoningEncryptedValueSubtype::Message => unattributed && self.message_owner_of(p.entity_id.as_str()).is_none(),
            },
            Event::StateSnapshot(_) | Event::StateDelta(_) => true,
            Event::ActivitySnapshot(p) => {
                let id = p.message_id.as_str();
                let known = self.activities.get(id);
                if p.replace || known.is_none() {
                    self.activities.assign(id, t);
                    proof {
                        lemma_lookup_assign(old(self)@.activities, id@, event_tag(event), id@);
                    }
                    unattributed
                } else {
                    match known {
                        Some(o) => o.is_none(),
                        None => true,
                    }
                }
            },
            Event::ActivityDelta(p) => {
                let id = p.message_id.as_str();
                let known = self.activities.get(id);
                match known {
                    Some(o) => o.is_none(),
                    None => {
                        self.activities.assign(id, t);
                        proof {
                            lemma_lookup_assign(old(self)@.activities, id@, event_tag(event), id@);
                        }
                        unattributed
                    },
                }
            },
            _ => unattributed,
        };
        let mut out: Vec<Event> = Vec::new();
        if !keep {
            return out;
        }
        match event {
            Event::StateSnapshot(_) | Event::StateDelta(_) | Event::ActivitySnapshot(_) | Event::ActivityDelta(_) => {
                let mut e = event;
                e.clear_subagent_run_id();
                out.push(e);
            },
            Event::MessagesSnapshot(p) => {
                let messages = self.restate(p.messages);
                out.push(Event::MessagesSnapshot(MessagesSnapshotEvent { base: p.base, messages }));
            },
            Event::RunStarted(p) => {
                let input = match p.input {
                    Some(i) => {
                        let messages = self.restate(i.messages);
                        Some(RunAgentInput { messages, ..i })
                    },
                    None => None,
                };
                out.push(Event::RunStarted(RunStartedEvent { input, ..p }));
            },
            Event::RunFinished(p) => {
                let outcome = strip_interrupts(p.outcome);
                out.push(Event::RunFinished(RunFinishedEvent { outcome, ..p }));
            },
            other => {
                out.push(other);
            },
        }
        out
    }

    /// Rewrites `event` for the filter's mode.
    pub fn transform(&mut self, event: Event) -> (out: Vec<Event>)
        ensures
            final(self)@.mode == old(self)@.mode,
            match old(self)@.mode {
                SubagentVisibility::Attributed => final(self)@ == old(self)@ && out@ == seq![event],
                SubagentVisibility::Inline => final(self)@ == old(self)@ && inline_emits(event, out@),
                SubagentVisibility::Hidden => final(self)@ == hidden_next(old(self)@, event)
                    && hidden_emits(old(self)@, event, out@),
            },
    {
        if self.mode == SubagentVisibility::Hidden {
            proof {
                lemma_hidden_next_mode(self@, event);
            }
            return self.hidden(event);
        }
        if self.mode == SubagentVisibility::Inline {
            return inline_event(event);
        }
        let mut out: Vec<Event> = Vec::new();
        out.push(event);
        out
    }
}

impl StreamTransformer for SubagentFilter {
    open spec fn emits(&self, event: Event, out: Seq<Event>) -> bool {
        match self@.mode {
            SubagentVisibility::Attributed => out == seq![event],
            SubagentVisibility::Inline => inline_emits(event, out),
            SubagentVisibility::Hidden => hidden_emits(self@, event, out),
        }
    }

    fn transform(&mut self, event: Event) -> (out: Vec<Event>)
        ensures
            final(self)@.mode == old(self)@.mode,
            match old(self)@.mode {
                SubagentVisibility::Attributed => final(self)@ == old(self)@ && out@ == seq![event],
                SubagentVisibility::Inline => final(self)@ == old(self)@ && inline_emits(event, out@),
                SubagentVisibility::Hidden => final(self)@ == hidden_next(old(self)@, event)
                    && hidden_emits(old(self)@, event, out@),
            },
    {
        SubagentFilter::transform(self, event)
    }
}

/// Whether `event` is one of the subagent lifecycle events.
pub open spec fn is_lifecycle(event: Event) -> bool {
    event is SubagentStarted || event is SubagentFinished || event is SubagentError
}

/// Replacing an event's base keeps its kind and gives it the new base.
pub proof fn lemma_with_base(event: Event, base: BaseEvent)
    ensures
        event.with_base(base).base_of() == base,
        event.with_base(base).kind() == event.kind(),
        is_lifecycle(event.with_base(base)) == is_lifecycle(event),
{
}

/// Nothing the inline mode emits is attributed to a subagent, and none of it
/// is a lifecycle event: the stream has the pre-subagent shape.
pub proof fn law_inline_leaves_no_attribution(event: Event, out: Seq<Event>)
    requires
        inline_emits(event, out),
    ensures
        forall|i: int| 0 <= i < out.len() ==> event_tag(#[trigger] out[i]) is None && !is_lifecycle(out[i]),
{
    lemma_with_base(event, BaseEvent { subagent_run_id: None, ..event.base_of() });
}

/// Nothing the hidden mode emits is attributed to a subagent, and none of it
/// is a lifecycle event: the consumer sees only the parent's work.
pub proof fn law_hidden_leaves_no_attribution(st: FilterView, event: Event, out: Seq<Event>)
    requires
        hidden_emits(st, event, out),
    ensures
        forall|i: int| 0 <= i < out.len() ==> event_tag(#[trigger] out[i]) is None && !is_lifecycle(out[i]),
{
    lemma_with_base(event, BaseEvent { subagent_run_id: None, ..event.base_of() });
}

/// The run's shared state reaches the consumer in hidden mode whoever
/// published it, as the parent's.
pub proof fn law_hidden_keeps_the_state(st: FilterView, event: Event, out: Seq<Event>)
    requires
        event is StateSnapshot || event is StateDelta,
        hidden_emits(st, event, out),
    ensures
        out == seq![untagged(event)],
{
    assert(out =~= seq![untagged(event)]);
}

/// Whether `event` speaks of message `id` without restating it: it opens,
/// continues or closes it, or carries a blob attached to it.
pub open spec fn speaks_of_message(event: Event, id: Seq<char>) -> bool {
    match event {
        Event::TextMessageStart(p) => p.message_id@ == id,
        Event::TextMessageContent(p) => p.message_id@ == id,
        Event::TextMessageEnd(p) => p.message_id@ == id,
        Event::TextMessageChunk(p) => p.message_id matches Some(m) && m@ == id,
        Event::ReasoningStart(p) => p.message_id@ == id,
        Event::ReasoningMessageStart(p) => p.message_id@ == id,
        Event::ReasoningMessageContent(p) => p.message_id@ == id,
        Event::ReasoningMessageEnd(p) => p.message_id@ == id,
        Event::ReasoningEnd(p) => p.message_id@ == id,
        Event::ReasoningMessageChunk(p) => p.message_id matches Some(m) && m@ == id,
        Event::ReasoningEncryptedValue(p) => p.subtype == ReasoningEncryptedValueSubtype::Message && p.entity_id@ == id,
        _ => false,
    }
}

/// Claiming an id someone owns changes nothing, and claiming another id
/// leaves this one's owner as it was.
pub proof fn lemma_claimed_keeps(log: OwnerEntries, id: Seq<char>, claimant: Option<Seq<char>>, other: Seq<char>)
    requires
        lookup(log, other) is Some,
    ensures
        lookup(claimed(log, id, claimant), other) == lookup(log, other),
{
    if lookup(log, id) is None {
        lemma_lookup_assign(log, id, claimant, other);
    }
}

/// The first writer owns a message for the run: once a subagent owns a
/// message id, every later event that speaks of it is dropped and leaves it
/// the subagent's, tagged or not, until a snapshot restates it.
pub proof fn law_first_writer_owns_the_message(st: FilterView, event: Event, id: Seq<char>)
    requires
        owner_of(st.messages, id) is Some,
        !(event is MessagesSnapshot || event is RunStarted),
    ensures
        owner_of(hidden_next(st, event).messages, id) == owner_of(st.messages, id),
        speaks_of_message(event, id) ==> !hidden_keeps(st, event),
{
    let tag = event_tag(event);
    match event {
        Event::TextMessageStart(p) => lemma_claimed_keeps(st.messages, p.message_id@, tag, id),
        Event::TextMessageChunk(p) => match p.message_id {
            Some(m) => lemma_claimed_keeps(st.messages, m@, tag, id),
            None => {},
        },
        Event::ReasoningStart(p) => lemma_claimed_keeps(st.messages, p.message_id@, tag, id),
        Event::ReasoningMessageStart(p) => lemma_claimed_keeps(st.messages, p.message_id@, tag, id),
        Event::ReasoningMessageChunk(p) => match p.message_id {
            Some(m) => lemma_claimed_keeps(st.messages, m@, tag, id),
            None => {},
        },
        _ => {},
    }
}

/// Whether `event` speaks of tool call `id`: it opens or continues it,
/// carries its result, or a blob attached to it.
pub open spec fn speaks_of_call(event: Event, id: Seq<char>) -> bool {
    match event {
        Event::ToolCallStart(p) => p.tool_call_id@ == id,
        Event::ToolCallChunk(p) => p.tool_call_id matches Some(c) && c@ == id,
        Event::ToolCallArgs(p) => p.tool_call_id@ == id,
        Event::ToolCallEnd(p) => p.tool_call_id@ == id,
        Event::ToolCallResult(p) => p.tool_call_id@ == id,
        Event::ReasoningEncryptedValue(p) => p.subtype == ReasoningEncryptedValueSubtype::ToolCall && p.entity_id@ == id,
        _ => false,
    }
}

/// The same holds of tool calls: a call a subagent owns — because it opened
/// it, or because the call rode on one of its messages — stays its own, and
/// every later event that speaks of the call, its result included, is
/// dropped until a snapshot restates it.
pub proof fn law_first_writer_owns_the_call(st: FilterView, event: Event, id: Seq<char>)
    requires
        owner_of(st.calls, id) is Some,
        !(event is MessagesSnapshot || event is RunStarted),
    ensures
        owner_of(hidden_next(st, event).calls, id) == owner_of(st.calls, id),
        speaks_of_call(event, id) ==> !hidden_keeps(st, event),
{
    let tag = event_tag(event);
    match event {
        Event::ToolCallStart(p) => lemma_claimed_keeps(st.calls, p.tool_call_id@, call_claimant(st, tag, p.parent_message_id), id),
        Event::ToolCallChunk(p) => match p.tool_call_id {
            Some(c) => lemma_claimed_keeps(st.calls, c@, call_claimant(st, tag, p.parent_message_id), id),
            None => {},
        },
        _ => {},
    }
}

} // verus!
