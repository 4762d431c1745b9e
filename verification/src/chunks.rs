//! Normalizing `*_CHUNK` events into explicit start/content/end triples.
//!
//! A producer that cannot bracket its output sends `TEXT_MESSAGE_CHUNK`,
//! `TOOL_CALL_CHUNK` and `REASONING_MESSAGE_CHUNK` instead. Those events fold
//! start, content and end into one, and carry their id and name only on the
//! first chunk: the id has to be remembered, and the end of one stream is only
//! knowable from the start of the next — or from the end of the run.

use vstd::prelude::*;

use crate::error::Error;
use crate::event::{
    BaseEvent, Event, ReasoningMessageChunkEvent, ReasoningMessageContentEvent,
    ReasoningMessageEndEvent, ReasoningMessageStartEvent, ReasoningRole, TextMessageChunkEvent,
    TextMessageContentEvent, TextMessageEndEvent, TextMessageRole, TextMessageStartEvent,
    ToolCallArgsEvent, ToolCallChunkEvent, ToolCallEndEvent, ToolCallStartEvent,
};
use crate::ids::{text_eq, MessageId, ToolCallId};
use crate::text::{cat, debug_quoted, quoted};
use crate::verify::{bracket, bracket_of, Bracket, StreamKind};

verus! {

/// The stream in flight: its family, its id, and whether the normalizer
/// emitted its opening event and therefore owes the closing one.
pub struct OpenStream {
    /// The family.
    pub stream: StreamKind,
    /// The message id or tool call id.
    pub id: Seq<char>,
    /// Whether the normalizer owes the end event.
    pub owed: bool,
}

/// What a normalizer remembers between events.
pub struct NormalizerState {
    /// The stream in flight, if any.
    pub open: Option<OpenStream>,
}

/// One event the normalizer emits, described by where its parts come from.
pub enum Emission {
    /// The input event, passed through untouched.
    Pass(Event),
    /// A synthesized `TEXT_MESSAGE_START`.
    TextStart { id: Seq<char>, role: TextMessageRole, name: Option<String>, base: BaseEvent },
    /// A synthesized `TOOL_CALL_START`.
    ToolStart { id: Seq<char>, name: String, parent: Option<MessageId>, base: BaseEvent },
    /// A synthesized `REASONING_MESSAGE_START`.
    ReasoningStart { id: Seq<char>, base: BaseEvent },
    /// The content of a chunk, as the family's content event.
    Content { stream: StreamKind, id: Seq<char>, delta: String, base: BaseEvent },
    /// A synthesized end, with nothing in its base.
    End { stream: StreamKind, id: Seq<char> },
}

/// Whether `event` is the event `emission` describes.
pub open spec fn realizes(event: Event, emission: Emission) -> bool {
    match emission {
        Emission::Pass(e) => event == e,
        Emission::TextStart { id, role, name, base } => event matches Event::TextMessageStart(p)
            && p.message_id@ == id && p.role == role && p.name == name && p.base == base,
        Emission::ToolStart { id, name, parent, base } => event matches Event::ToolCallStart(p)
            && p.tool_call_id@ == id && p.tool_call_name == name && p.parent_message_id == parent
            && p.base == base,
        Emission::ReasoningStart { id, base } => event matches Event::ReasoningMessageStart(p)
            && p.message_id@ == id && p.role == ReasoningRole::Reasoning && p.base == base,
        Emission::Content { stream, id, delta, base } => match stream {
            StreamKind::Text => event matches Event::TextMessageContent(p) && p.message_id@ == id
                && p.delta == delta && p.base == base,
            StreamKind::Tool => event matches Event::ToolCallArgs(p) && p.tool_call_id@ == id
                && p.delta == delta && p.base == base,
            StreamKind::Reasoning => event matches Event::ReasoningMessageContent(p)
                && p.message_id@ == id && p.delta == delta && p.base == base,
        },
        Emission::End { stream, id } => match stream {
            StreamKind::Text => event matches Event::TextMessageEnd(p) && p.message_id@ == id
                && p.base.blank(),
            StreamKind::Tool => event matches Event::ToolCallEnd(p) && p.tool_call_id@ == id
                && p.base.blank(),
            StreamKind::Reasoning => event matches Event::ReasoningMessageEnd(p)
                && p.message_id@ == id && p.base.blank(),
        },
    }
}

/// Whether `events` are, one for one, the events `emissions` describe.
pub open spec fn realizes_all(events: Seq<Event>, emissions: Seq<Emission>) -> bool {
    &&& events.len() == emissions.len()
    &&& forall|i: int| 0 <= i < events.len() ==> realizes(#[trigger] events[i], emissions[i])
}

/// Whether `after` is `before` followed by events realizing `emitted`.
pub open spec fn appended(before: Seq<Event>, after: Seq<Event>, emitted: Seq<Emission>) -> bool {
    &&& before.len() <= after.len()
    &&& after.subrange(0, before.len() as int) == before
    &&& realizes_all(after.subrange(before.len() as int, after.len() as int), emitted)
}

/// The id of the open stream, if it is of this family.
pub open spec fn current(s: NormalizerState, stream: StreamKind) -> Option<Seq<char>> {
    match s.open {
        Some(o) => if o.stream == stream {
            Some(o.id)
        } else {
            None
        },
        None => None,
    }
}

/// Closes whatever is open, emitting its end if the normalizer owes one.
pub open spec fn close(s: NormalizerState) -> (NormalizerState, Seq<Emission>) {
    match s.open {
        Some(o) => if o.owed {
            (NormalizerState { open: None }, seq![Emission::End { stream: o.stream, id: o.id }])
        } else {
            (NormalizerState { open: None }, Seq::empty())
        },
        None => (NormalizerState { open: None }, Seq::empty()),
    }
}

/// Closes what is open, emits `start`, and takes on the debt for its end.
pub open spec fn begin(s: NormalizerState, stream: StreamKind, id: Seq<char>, start: Emission) -> (
    NormalizerState,
    Seq<Emission>,
) {
    let closed = close(s);
    (
        NormalizerState { open: Some(OpenStream { stream, id, owed: true }) },
        closed.1.push(start),
    )
}

/// An explicit event for a stream: closes a different open stream, then takes
/// it over. Nothing is owed for a stream the producer opened.
pub open spec fn open_explicit(s: NormalizerState, stream: StreamKind, id: Seq<char>) -> (
    NormalizerState,
    Seq<Emission>,
) {
    if current(s, stream) == Some(id) {
        (s, Seq::empty())
    } else {
        let closed = close(s);
        (NormalizerState { open: Some(OpenStream { stream, id, owed: false }) }, closed.1)
    }
}

/// An explicit end for a stream: forgets it if it is the open one, and
/// otherwise closes whatever is open.
pub open spec fn close_explicit(s: NormalizerState, stream: StreamKind, id: Seq<char>) -> (
    NormalizerState,
    Seq<Emission>,
) {
    if current(s, stream) == Some(id) {
        (NormalizerState { open: None }, Seq::empty())
    } else {
        close(s)
    }
}

/// What an explicit event does to the open stream. Only events that belong to
/// a stream, the one that answers a tool call, and those that end a reasoning
/// block or the run touch it.
pub open spec fn observe(s: NormalizerState, event: Event) -> (NormalizerState, Seq<Emission>) {
    match bracket_of(event) {
        Some((stream, Bracket::Close, id)) => close_explicit(s, stream, id),
        Some((stream, _, id)) => open_explicit(s, stream, id),
        None => match event {
            Event::ToolCallResult(_) => close(s),
            Event::ReasoningEnd(_) => close(s),
            Event::RunFinished(_) => close(s),
            Event::RunError(_) => close(s),
            _ => (s, Seq::empty()),
        },
    }
}

/// "TEXT_MESSAGE_CHUNK carries no messageId and no message is open"
pub open spec fn text_orphan_text() -> Seq<char> {
    "TEXT_MESSAGE_CHUNK carries no messageId and no message is open"@
}

/// "TOOL_CALL_CHUNK carries no toolCallId and no call is open"
pub open spec fn tool_orphan_text() -> Seq<char> {
    "TOOL_CALL_CHUNK carries no toolCallId and no call is open"@
}

/// "REASONING_MESSAGE_CHUNK carries no messageId and no reasoning message is open"
pub open spec fn reasoning_orphan_text() -> Seq<char> {
    "REASONING_MESSAGE_CHUNK carries no messageId and no reasoning message is open"@
}

/// "TOOL_CALL_CHUNK opens tool call {id:?} without a toolCallName"
pub open spec fn unnamed_call_text(id: Seq<char>) -> Seq<char> {
    "TOOL_CALL_CHUNK opens tool call "@ + debug_quoted(id) + " without a toolCallName"@
}

/// The stream a chunk belongs to: the one it names, or the open one of its
/// family.
pub open spec fn chunk_id(s: NormalizerState, stream: StreamKind, named: Option<Seq<char>>) -> Option<
    Seq<char>,
> {
    match named {
        Some(id) => Some(id),
        None => current(s, stream),
    }
}

/// The chunk's content, if it carries any, appended to `emitted`.
pub open spec fn with_content(
    emitted: Seq<Emission>,
    stream: StreamKind,
    id: Seq<char>,
    delta: Option<String>,
    base: BaseEvent,
) -> Seq<Emission> {
    match delta {
        Some(d) => emitted.push(Emission::Content { stream, id, delta: d, base }),
        None => emitted,
    }
}

/// The view of an optional message id.
pub open spec fn message_id_view(id: Option<MessageId>) -> Option<Seq<char>> {
    match id {
        Some(m) => Some(m@),
        None => None,
    }
}

/// The view of an optional tool call id.
pub open spec fn tool_call_id_view(id: Option<ToolCallId>) -> Option<Seq<char>> {
    match id {
        Some(c) => Some(c@),
        None => None,
    }
}

/// What one event does: the state after it and what is emitted, or the
/// complaint when a chunk has no stream to belong to.
pub open spec fn step(s: NormalizerState, event: Event) -> Result<(NormalizerState, Seq<Emission>), Seq<char>> {
    match event {
        Event::TextMessageChunk(c) => match chunk_id(s, StreamKind::Text, message_id_view(c.message_id)) {
            None => Err(text_orphan_text()),
            Some(id) => {
                let opened = if current(s, StreamKind::Text) == Some(id) {
                    (s, Seq::empty())
                } else {
                    begin(s, StreamKind::Text, id, Emission::TextStart {
                        id,
                        role: match c.role {
                            Some(r) => r,
                            None => TextMessageRole::Assistant,
                        },
                        name: c.name,
                        base: c.base,
                    })
                };
                Ok((opened.0, with_content(opened.1, StreamKind::Text, id, c.delta, c.base)))
            },
        },
        Event::ToolCallChunk(c) => match chunk_id(s, StreamKind::Tool, tool_call_id_view(c.tool_call_id)) {
            None => Err(tool_orphan_text()),
            Some(id) => if current(s, StreamKind::Tool) == Some(id) {
                Ok((s, with_content(Seq::empty(), StreamKind::Tool, id, c.delta, c.base)))
            } else {
                match c.tool_call_name {
                    None => Err(unnamed_call_text(id)),
                    Some(name) => {
                        let opened = begin(s, StreamKind::Tool, id, Emission::ToolStart {
                            id,
                            name,
                            parent: c.parent_message_id,
                            base: c.base,
                        });
                        Ok((opened.0, with_content(opened.1, StreamKind::Tool, id, c.delta, c.base)))
                    },
                }
            },
        },
        Event::ReasoningMessageChunk(c) => match chunk_id(s, StreamKind::Reasoning, message_id_view(c.message_id)) {
            None => Err(reasoning_orphan_text()),
            Some(id) => {
                let opened = if current(s, StreamKind::Reasoning) == Some(id) {
                    (s, Seq::empty())
                } else {
                    begin(s, StreamKind::Reasoning, id, Emission::ReasoningStart { id, base: c.base })
                };
                Ok((opened.0, with_content(opened.1, StreamKind::Reasoning, id, c.delta, c.base)))
            },
        },
        _ => {
            let observed = observe(s, event);
            Ok((observed.0, observed.1.push(Emission::Pass(event))))
        },
    }
}

/// Runs `events` through a normalizer that starts in state `s`: the state
/// reached and everything emitted, or the first complaint.
pub open spec fn run_chunks(s: NormalizerState, events: Seq<Event>) -> Result<(NormalizerState, Seq<Emission>), Seq<char>>
    decreases events.len(),
{
    if events.len() == 0 {
        Ok((s, Seq::empty()))
    } else {
        match run_chunks(s, events.drop_last()) {
            Err(m) => Err(m),
            Ok((t, emitted)) => match step(t, events.last()) {
                Err(m) => Err(m),
                Ok((u, more)) => Ok((u, emitted + more)),
            },
        }
    }
}

/// The whole output for a run: everything emitted, then the end of whatever
/// is still owed.
pub open spec fn normalized(events: Seq<Event>) -> Result<Seq<Emission>, Seq<char>> {
    match run_chunks(NormalizerState { open: None }, events) {
        Err(m) => Err(m),
        Ok((t, emitted)) => Ok(emitted + close(t).1),
    }
}

/// The stream currently open in the normalizer.
#[derive(Clone, Debug)]
struct Open {
    stream: StreamKind,
    id: String,
    owed: bool,
}

/// Expands chunk events into the explicit events the rest of the protocol is
/// written in.
///
/// Feed every event of a run through it, in order. Events that are not chunks
/// pass through untouched, but they are still observed, so that an
/// explicitly opened message can absorb a following bare chunk, and so an
/// explicit end is not duplicated.
#[derive(Clone, Debug, Default)]
pub struct ChunkNormalizer {
    open: Option<Open>,
}

impl View for ChunkNormalizer {
    type V = NormalizerState;

    closed spec fn view(&self) -> NormalizerState {
        NormalizerState {
            open: match self.open {
                Some(o) => Some(OpenStream { stream: o.stream, id: o.id@, owed: o.owed }),
                None => None,
            },
        }
    }
}

impl ChunkNormalizer {
    /// A normalizer with nothing open.
    pub fn new() -> (normalizer: Self)
        ensures
            normalizer@.open is None,
    {
        ChunkNormalizer { open: None }
    }

    /// Whether a stream is currently open.
    pub fn is_open(&self) -> (open: bool)
        ensures
            open == (self@.open is Some),
    {
        self.open.is_some()
    }

    /// Expands one event, appending the result to `out`: the synthesized end
    /// of the previous stream, the synthesized start of this one, and the
    /// content — or the event itself.
    ///
    /// A chunk that names no stream and has none open, or a tool call chunk
    /// that opens a call without naming the tool, is a protocol violation:
    /// there is no id to attach the payload to. Nothing is emitted then.
    pub fn normalize(&mut self, event: Event, out: &mut Vec<Event>) -> (done: Result<(), Error>)
        ensures
            match step(old(self)@, event) {
                Ok((t, emitted)) => {
                    &&& done is Ok
                    &&& final(self)@ == t
                    &&& appended(old(out)@, final(out)@, emitted)
                },
                Err(m) => {
                    &&& done matches Err(e) && e is Protocol && e.text() == m
                    &&& final(self)@ == old(self)@
                    &&& final(out)@ == old(out)@
                },
            },
    {
        match event {
            Event::TextMessageChunk(chunk) => self.text_chunk(chunk, out),
            Event::ToolCallChunk(chunk) => self.tool_chunk(chunk, out),
            Event::ReasoningMessageChunk(chunk) => self.reasoning_chunk(chunk, out),
            other => {
                let ghost before = out@;
                self.observe(&other, out);
                let ghost mid = out@;
                out.push(other);
                proof {
                    lemma_appended_push(before, mid, observe(old(self)@, other).1, other, Emission::Pass(other));
                }
                Ok(())
            },
        }
    }

    /// Closes whatever the normalizer opened but never got to end: the last
    /// message of a chunk stream has nothing after it to imply its end.
    pub fn finish(&mut self, out: &mut Vec<Event>)
        ensures
            final(self)@ == close(old(self)@).0,
            final(self)@.open is None,
            appended(old(out)@, final(out)@, close(old(self)@).1),
    {
        self.close(out);
    }

    /// The id of the open stream, if it is of this family.
    fn current(&self, stream: StreamKind) -> (id: Option<String>)
        ensures
            match id {
                Some(i) => current(self@, stream) == Some(i@),
                None => current(self@, stream) is None,
            },
    {
        match &self.open {
            Some(o) => if o.stream == stream {
                Some(o.id.clone())
            } else {
                None
            },
            None => None,
        }
    }

    /// Whether the open stream is of this family with this id.
    fn is_current(&self, stream: StreamKind, id: &str) -> (same: bool)
        ensures
            same == (current(self@, stream) == Some(id@)),
    {
        match &self.open {
            Some(o) => o.stream == stream && text_eq(o.id.as_str(), id),
            None => false,
        }
    }

    /// Emits the end event for the open stream, if this normalizer owes one.
    fn close(&mut self, out: &mut Vec<Event>)
        ensures
            final(self)@ == close(old(self)@).0,
            appended(old(out)@, final(out)@, close(old(self)@).1),
    {
        let taken = self.open.take();
        proof {
            lemma_appended_refl(out@);
        }
        match taken {
            None => {},
            Some(o) => {
                if o.owed {
                    let end = match o.stream {
                        StreamKind::Text => Event::TextMessageEnd(TextMessageEndEvent {
                            base: BaseEvent::new(),
                            message_id: MessageId::from_string(o.id),
                        }),
                        StreamKind::Tool => Event::ToolCallEnd(ToolCallEndEvent {
                            base: BaseEvent::new(),
                            tool_call_id: ToolCallId::from_string(o.id),
                        }),
                        StreamKind::Reasoning => Event::ReasoningMessageEnd(ReasoningMessageEndEvent {
                            base: BaseEvent::new(),
                            message_id: MessageId::from_string(o.id),
                        }),
                    };
                    let ghost before = out@;
                    out.push(end);
                    proof {
                        lemma_appended_push(before, before, Seq::empty(), end, close(old(self)@).1[0]);
                        assert(Seq::<Emission>::empty().push(close(old(self)@).1[0]) =~= close(old(self)@).1);
                    }
                }
            },
        }
    }

    /// Closes whatever was open, emits `start`, and takes on the debt for the
    /// matching end event.
    fn begin(&mut self, stream: StreamKind, id: &str, start: Event, out: &mut Vec<Event>, Ghost(described): Ghost<Emission>)
        requires
            realizes(start, described),
        ensures
            final(self)@ == begin(old(self)@, stream, id@, described).0,
            appended(old(out)@, final(out)@, begin(old(self)@, stream, id@, described).1),
    {
        let ghost before = out@;
        self.close(out);
        let ghost mid = out@;
        out.push(start);
        self.open = Some(Open { stream, id: id.to_owned(), owed: true });
        proof {
            lemma_appended_push(before, mid, close(old(self)@).1, start, described);
        }
    }

    /// Appends the content event for a chunk's delta, if it carries one.
    fn content(stream: StreamKind, id: &str, delta: Option<String>, base: BaseEvent, out: &mut Vec<Event>, Ghost(origin): Ghost<Seq<Event>>, Ghost(emitted): Ghost<Seq<Emission>>)
        requires
            appended(origin, old(out)@, emitted),
        ensures
            appended(origin, final(out)@, with_content(emitted, stream, id@, delta, base)),
    {
        match delta {
            None => {},
            Some(d) => {
                let ghost before = out@;
                let ghost dd = d;
                let event = match stream {
                    StreamKind::Text => Event::TextMessageContent(TextMessageContentEvent {
                        base,
                        message_id: MessageId::new(id),
                        delta: d,
                    }),
                    StreamKind::Tool => Event::ToolCallArgs(ToolCallArgsEvent {
                        base,
                        tool_call_id: ToolCallId::new(id),
                        delta: d,
                    }),
                    StreamKind::Reasoning => Event::ReasoningMessageContent(ReasoningMessageContentEvent {
                        base,
                        message_id: MessageId::new(id),
                        delta: d,
                    }),
                };
                out.push(event);
                proof {
                    lemma_appended_push(origin, before, emitted, event, Emission::Content { stream, id: id@, delta: dd, base });
                }
            },
        }
    }

    fn text_chunk(&mut self, chunk: TextMessageChunkEvent, out: &mut Vec<Event>) -> (done: Result<(), Error>)
        ensures
            match step(old(self)@, Event::TextMessageChunk(chunk)) {
                Ok((t, emitted)) => {
                    &&& done is Ok
                    &&& final(self)@ == t
                    &&& appended(old(out)@, final(out)@, emitted)
                },
                Err(m) => {
                    &&& done matches Err(e) && e is Protocol && e.text() == m
                    &&& final(self)@ == old(self)@
                    &&& final(out)@ == old(out)@
                },
            },
    {
        let ghost whole = chunk;
        let TextMessageChunkEvent { base, message_id, role, delta, name } = chunk;
        let id: String = match message_id {
            Some(m) => m.as_str().to_owned(),
            None => match self.current(StreamKind::Text) {
                Some(i) => i,
                None => {
                    return Err(Error::protocol("TEXT_MESSAGE_CHUNK carries no messageId and no message is open".to_owned()));
                },
            },
        };
        let ghost origin = out@;
        let ghost emitted: Seq<Emission>;
        if !self.is_current(StreamKind::Text, id.as_str()) {
            let ghost described = Emission::TextStart {
                id: id@,
                role: match role {
                    Some(r) => r,
                    None => TextMessageRole::Assistant,
                },
                name,
                base,
            };
            let start = Event::TextMessageStart(TextMessageStartEvent {
                base: base.clone(),
                message_id: MessageId::new(id.as_str()),
                role: match role {
                    Some(r) => r,
                    None => TextMessageRole::Assistant,
                },
                name,
            });
            self.begin(StreamKind::Text, id.as_str(), start, out, Ghost(described));
            proof {
                emitted = begin(old(self)@, StreamKind::Text, id@, described).1;
            }
        } else {
            proof {
                emitted = Seq::empty();
                lemma_appended_refl(out@);
            }
        }
        Self::content(StreamKind::Text, id.as_str(), delta, base, out, Ghost(origin), Ghost(emitted));
        proof {
            assert(whole == TextMessageChunkEvent { base, message_id: whole.message_id, role, delta, name });
        }
        Ok(())
    }

    fn tool_chunk(&mut self, chunk: ToolCallChunkEvent, out: &mut Vec<Event>) -> (done: Result<(), Error>)
        ensures
            match step(old(self)@, Event::ToolCallChunk(chunk)) {
                Ok((t, emitted)) => {
                    &&& done is Ok
                    &&& final(self)@ == t
                    &&& appended(old(out)@, final(out)@, emitted)
                },
                Err(m) => {
                    &&& done matches Err(e) && e is Protocol && e.text() == m
                    &&& final(self)@ == old(self)@
                    &&& final(out)@ == old(out)@
                },
            },
    {
        let ghost whole = chunk;
        let ToolCallChunkEvent { base, tool_call_id, tool_call_name, parent_message_id, delta } = chunk;
        let id: String = match tool_call_id {
            Some(c) => c.as_str().to_owned(),
            None => match self.current(StreamKind::Tool) {
                Some(i) => i,
                None => {
                    return Err(Error::protocol("TOOL_CALL_CHUNK carries no toolCallId and no call is open".to_owned()));
                },
            },
        };
        let ghost origin = out@;
        let ghost emitted: Seq<Emission>;
        if !self.is_current(StreamKind::Tool, id.as_str()) {
            let name = match tool_call_name {
                Some(n) => n,
                None => {
                    let q = quoted(id.as_str());
                    let text = cat(cat("TOOL_CALL_CHUNK opens tool call ".to_owned(), q.as_str()), " without a toolCallName");
                    return Err(Error::protocol(text));
                },
            };
            let ghost described = Emission::ToolStart { id: id@, name, parent: parent_message_id, base };
            let start = Event::ToolCallStart(ToolCallStartEvent {
                base: base.clone(),
                tool_call_id: ToolCallId::new(id.as_str()),
                tool_call_name: name,
                parent_message_id,
            });
            self.begin(StreamKind::Tool, id.as_str(), start, out, Ghost(described));
            proof {
                emitted = begin(old(self)@, StreamKind::Tool, id@, described).1;
            }
        } else {
            proof {
                emitted = Seq::empty();
                lemma_appended_refl(out@);
            }
        }
        Self::content(StreamKind::Tool, id.as_str(), delta, base, out, Ghost(origin), Ghost(emitted));
        proof {
            assert(whole == ToolCallChunkEvent { base, tool_call_id: whole.tool_call_id, tool_call_name: whole.tool_call_name, parent_message_id, delta });
        }
        Ok(())
    }

    fn reasoning_chunk(&mut self, chunk: ReasoningMessageChunkEvent, out: &mut Vec<Event>) -> (done: Result<(), Error>)
        ensures
            match step(old(self)@, Event::ReasoningMessageChunk(chunk)) {
                Ok((t, emitted)) => {
                    &&& done is Ok
                    &&& final(self)@ == t
                    &&& appended(old(out)@, final(out)@, emitted)
                },
                Err(m) => {
                    &&& done matches Err(e) && e is Protocol && e.text() == m
                    &&& final(self)@ == old(self)@
                    &&& final(out)@ == old(out)@
                },
            },
    {
        let ghost whole = chunk;
        let ReasoningMessageChunkEvent { base, message_id, delta } = chunk;
        let id: String = match message_id {
            Some(m) => m.as_str().to_owned(),
            None => match self.current(StreamKind::Reasoning) {
                Some(i) => i,
                None => {
                    return Err(Error::protocol("REASONING_MESSAGE_CHUNK carries no messageId and no reasoning message is open".to_owned()));
                },
            },
        };
        let ghost origin = out@;
        let ghost emitted: Seq<Emission>;
        if !self.is_current(StreamKind::Reasoning, id.as_str()) {
            let ghost described = Emission::ReasoningStart { id: id@, base };
            let start = Event::ReasoningMessageStart(ReasoningMessageStartEvent {
                base: base.clone(),
                message_id: MessageId::new(id.as_str()),
                role: ReasoningRole::Reasoning,
            });
            self.begin(StreamKind::Reasoning, id.as_str(), start, out, Ghost(described));
            proof {
                emitted = begin(old(self)@, StreamKind::Reasoning, id@, described).1;
            }
        } else {
            proof {
                emitted = Seq::empty();
                lemma_appended_refl(out@);
            }
        }
        Self::content(StreamKind::Reasoning, id.as_str(), delta, base, out, Ghost(origin), Ghost(emitted));
        proof {
            assert(whole == ReasoningMessageChunkEvent { base, message_id: whole.message_id, delta });
        }
        Ok(())
    }

    /// Tracks what an explicit (non-chunk) event does to the open stream.
    fn observe(&mut self, event: &Event, out: &mut Vec<Event>)
        ensures
            final(self)@ == observe(old(self)@, *event).0,
            appended(old(out)@, final(out)@, observe(old(self)@, *event).1),
    {
        match bracket(event) {
            Some((stream, part, id)) => {
                if part == Bracket::Close {
                    if self.is_current(stream, id) {
                        self.open = None;
                        proof {
                            lemma_appended_refl(out@);
                        }
                    } else {
                        self.close(out);
                    }
                } else {
                    if self.is_current(stream, id) {
                        proof {
                            lemma_appended_refl(out@);
                        }
                    } else {
                        self.close(out);
                        self.open = Some(Open { stream, id: id.to_owned(), owed: false });
                    }
                }
            },
            None => {
                match event {
                    Event::ToolCallResult(_) | Event::ReasoningEnd(_) | Event::RunFinished(_) | Event::RunError(_) => {
                        self.close(out);
                    },
                    _ => {
                        proof {
                            lemma_appended_refl(out@);
                        }
                    },
                }
            },
        }
    }
}

/// Appending one realized event keeps a realization.
pub proof fn lemma_realizes_push(events: Seq<Event>, emissions: Seq<Emission>, event: Event, emission: Emission)
    requires
        realizes_all(events, emissions),
        realizes(event, emission),
    ensures
        realizes_all(events.push(event), emissions.push(emission)),
{
    assert forall|i: int| 0 <= i < events.len() + 1 implies realizes(#[trigger] events.push(event)[i], emissions.push(emission)[i]) by {
        if i < events.len() {
            assert(events.push(event)[i] == events[i]);
        }
    }
}

/// Concatenating realizations gives a realization.
pub proof fn lemma_realizes_concat(a: Seq<Event>, da: Seq<Emission>, b: Seq<Event>, db: Seq<Emission>)
    requires
        realizes_all(a, da),
        realizes_all(b, db),
    ensures
        realizes_all(a + b, da + db),
{
    assert forall|i: int| 0 <= i < a.len() + b.len() implies realizes(#[trigger] (a + b)[i], (da + db)[i]) by {
        if i < a.len() {
            assert((a + b)[i] == a[i]);
            assert((da + db)[i] == da[i]);
        } else {
            assert((a + b)[i] == b[i - a.len()]);
            assert((da + db)[i] == db[i - a.len()]);
        }
    }
}


/// An output with nothing appended realizes nothing.
pub proof fn lemma_appended_refl(events: Seq<Event>)
    ensures
        appended(events, events, Seq::empty()),
{
    assert(events.subrange(0, events.len() as int) =~= events);
    assert(events.subrange(events.len() as int, events.len() as int) =~= Seq::<Event>::empty());
}

/// Appending one realized event extends what was appended.
pub proof fn lemma_appended_push(before: Seq<Event>, after: Seq<Event>, emitted: Seq<Emission>, event: Event, emission: Emission)
    requires
        appended(before, after, emitted),
        realizes(event, emission),
    ensures
        appended(before, after.push(event), emitted.push(emission)),
{
    let added = after.subrange(before.len() as int, after.len() as int);
    assert(after.push(event).subrange(0, before.len() as int) =~= after.subrange(0, before.len() as int));
    assert(after.push(event).subrange(before.len() as int, after.len() + 1int) =~= added.push(event));
    lemma_realizes_push(added, emitted, event, emission);
}

/// Two appends in a row are one append.
pub proof fn lemma_appended_trans(a: Seq<Event>, b: Seq<Event>, c: Seq<Event>, first: Seq<Emission>, second: Seq<Emission>)
    requires
        appended(a, b, first),
        appended(b, c, second),
    ensures
        appended(a, c, first + second),
{
    let x = b.subrange(a.len() as int, b.len() as int);
    let y = c.subrange(b.len() as int, c.len() as int);
    assert(c.subrange(0, a.len() as int) =~= c.subrange(0, b.len() as int).subrange(0, a.len() as int));
    assert(c.subrange(a.len() as int, c.len() as int) =~= x + y);
    lemma_realizes_concat(x, first, y, second);
}

/// Normalizes a whole run in one call, closing anything left open at the end.
pub fn normalize_all(events: Vec<Event>) -> (normalized_events: Result<Vec<Event>, Error>)
    ensures
        match normalized(events@) {
            Ok(emitted) => normalized_events matches Ok(out) && realizes_all(out@, emitted),
            Err(m) => normalized_events matches Err(e) && e is Protocol && e.text() == m,
        },
{
    let mut normalizer = ChunkNormalizer::new();
    let mut out: Vec<Event> = Vec::new();
    let ghost all = events@;
    let ghost mut emitted: Seq<Emission> = Seq::empty();
    let ghost mut done: Seq<Event> = Seq::empty();
    // Reverse the events, so that popping walks them front to back without
    // cloning them.
    let mut source = events;
    let mut rest: Vec<Event> = Vec::new();
    while source.len() > 0
        invariant
            all == events@,
            source@ + rest@.reverse() =~= all,
        decreases source@.len(),
    {
        let ghost before_source = source@;
        let ghost before_rest = rest@;
        let event = source.pop().unwrap();
        rest.push(event);
        proof {
            assert(rest@.reverse() =~= seq![event] + before_rest.reverse());
            assert(before_source =~= source@.push(event));
        }
    }
    proof {
        assert(source@ =~= Seq::<Event>::empty());
        assert(done + rest@.reverse() =~= all);
        lemma_appended_refl(out@);
    }
    while rest.len() > 0
        invariant
            all == events@,
            done + rest@.reverse() =~= all,
            run_chunks(NormalizerState { open: None }, done) == Ok::<(NormalizerState, Seq<Emission>), Seq<char>>((normalizer@, emitted)),
            appended(Seq::empty(), out@, emitted),
        decreases rest@.len(),
    {
        let ghost before_rest = rest@;
        let event = rest.pop().unwrap();
        let ghost before_out = out@;
        let ghost before_state = normalizer@;
        proof {
            assert(before_rest =~= rest@.push(event));
            assert(before_rest.reverse() =~= seq![event] + rest@.reverse());
        }
        let checked = normalizer.normalize(event, &mut out);
        proof {
            let next = done.push(event);
            assert(next.drop_last() =~= done);
            assert(next.last() == event);
        }
        match checked {
            Err(e) => {
                proof {
                    let next = done.push(event);
                    let tail = all.subrange(next.len() as int, all.len() as int);
                    assert(step(before_state, event) is Err);
                    assert(run_chunks(NormalizerState { open: None }, next) == Err::<(NormalizerState, Seq<Emission>), Seq<char>>(e.text()));
                    assert(all =~= next + tail);
                    lemma_chunk_error_persists(NormalizerState { open: None }, next, tail);
                    assert(run_chunks(NormalizerState { open: None }, all) == Err::<(NormalizerState, Seq<Emission>), Seq<char>>(e.text()));
                    assert(normalized(all) == Err::<Seq<Emission>, Seq<char>>(e.text()));
                    assert(e is Protocol);
                }
                return Err(e);
            },
            Ok(()) => {
                proof {
                    let more = match step(before_state, event) {
                        Ok((_, m)) => m,
                        Err(_) => Seq::empty(),
                    };
                    lemma_appended_trans(Seq::empty(), before_out, out@, emitted, more);
                    emitted = emitted + more;
                    done = done.push(event);
                    assert(done + rest@.reverse() =~= all);
                }
            },
        }
    }
    let ghost before_close = normalizer@;
    let ghost before_out = out@;
    normalizer.finish(&mut out);
    proof {
        assert(done =~= all);
        lemma_appended_trans(Seq::empty(), before_out, out@, emitted, close(before_close).1);
        assert(out@.subrange(0, out@.len() as int) =~= out@);
    }
    Ok(out)
}

/// Once a normalization has failed, nothing that follows changes the verdict.
pub proof fn lemma_chunk_error_persists(s: NormalizerState, prefix: Seq<Event>, rest: Seq<Event>)
    requires
        run_chunks(s, prefix) is Err,
    ensures
        run_chunks(s, prefix + rest) == run_chunks(s, prefix),
    decreases rest.len(),
{
    if rest.len() == 0 {
        assert(prefix + rest =~= prefix);
    } else {
        lemma_chunk_error_persists(s, prefix, rest.drop_last());
        assert((prefix + rest).drop_last() =~= prefix + rest.drop_last());
    }
}

/// Whether `event` is one of the three chunk events.
pub open spec fn is_chunk(event: Event) -> bool {
    ||| event is TextMessageChunk
    ||| event is ToolCallChunk
    ||| event is ReasoningMessageChunk
}

/// Whether `emission` can describe a chunk event: only passing one through
/// could.
pub open spec fn emits_chunk(emission: Emission) -> bool {
    emission matches Emission::Pass(e) && is_chunk(e)
}

/// An event an emission that passes no chunk through describes is no chunk.
proof fn lemma_realized_is_no_chunk(event: Event, emission: Emission)
    requires
        realizes(event, emission),
        !emits_chunk(emission),
    ensures
        !is_chunk(event),
{
}

/// What closing emits: nothing, or the one end the normalizer owes.
proof fn lemma_close_shape(s: NormalizerState)
    ensures
        close(s).1.len() <= 1,
        close(s).1.len() == 1 ==> (s.open matches Some(o) && o.owed && close(s).1[0] == (Emission::End {
            stream: o.stream,
            id: o.id,
        })),
{
}

/// What one step emits: at most three events, none of them a chunk; and for
/// an event that is not a chunk, the event itself last, after at most the
/// one end the normalizer owes for a stream it opened.
proof fn lemma_step_shape(s: NormalizerState, event: Event)
    requires
        step(s, event) is Ok,
    ensures
        ({
            let emitted = step(s, event)->Ok_0.1;
            &&& emitted.len() <= 3
            &&& forall|i: int| 0 <= i < emitted.len() ==> !emits_chunk(#[trigger] emitted[i])
            &&& !is_chunk(event) ==> {
                &&& emitted.len() >= 1
                &&& emitted.last() == Emission::Pass(event)
                &&& emitted.len() <= 2
                &&& emitted.len() == 2 ==> (s.open matches Some(o) && o.owed && emitted[0] == (Emission::End {
                    stream: o.stream,
                    id: o.id,
                }))
            }
        }),
{
    lemma_close_shape(s);
}

/// Normalizing one event appends at most three events, none of them a
/// chunk. An event that is not a chunk comes out unchanged and last, and
/// anything before it is the one end the normalizer owed for a stream it
/// opened itself.
pub proof fn law_normalizing_appends_little_and_no_chunk(
    s: NormalizerState,
    event: Event,
    before: Seq<Event>,
    after: Seq<Event>,
)
    requires
        step(s, event) is Ok,
        appended(before, after, step(s, event)->Ok_0.1),
    ensures
        before.len() <= after.len() <= before.len() + 3,
        after.subrange(0, before.len() as int) == before,
        forall|i: int| before.len() <= i < after.len() ==> !is_chunk(#[trigger] after[i]),
        !is_chunk(event) ==> {
            &&& after.len() > before.len()
            &&& after.last() == event
            &&& after.len() <= before.len() + 2
            &&& after.len() == before.len() + 2 ==> (s.open matches Some(o) && o.owed && realizes(
                after[before.len() as int],
                Emission::End { stream: o.stream, id: o.id },
            ))
        },
{
    let emitted = step(s, event)->Ok_0.1;
    lemma_step_shape(s, event);
    let added = after.subrange(before.len() as int, after.len() as int);
    assert forall|i: int| before.len() <= i < after.len() implies !is_chunk(#[trigger] after[i]) by {
        let k = i - before.len();
        assert(added[k] == after[i]);
        assert(realizes(added[k], emitted[k]));
        lemma_realized_is_no_chunk(after[i], emitted[k]);
    }
    if !is_chunk(event) {
        let n = emitted.len() - 1;
        assert(added[n] == after.last());
        assert(realizes(added[n], emitted[n]));
        if emitted.len() == 2 {
            assert(added[0] == after[before.len() as int]);
            assert(realizes(added[0], emitted[0]));
        }
    }
}

/// Finishing closes only what the normalizer opened itself: it appends the
/// end of a stream a chunk opened, and nothing at all otherwise; afterwards
/// nothing is open.
pub proof fn law_finishing_ends_only_what_chunks_opened(s: NormalizerState, before: Seq<Event>, after: Seq<Event>)
    requires
        appended(before, after, close(s).1),
    ensures
        close(s).0.open is None,
        after.subrange(0, before.len() as int) == before,
        match s.open {
            Some(o) => if o.owed {
                after.len() == before.len() + 1 && realizes(after.last(), Emission::End { stream: o.stream, id: o.id })
            } else {
                after == before
            },
            None => after == before,
        },
{
    let added = after.subrange(before.len() as int, after.len() as int);
    if close(s).1.len() == 1 {
        assert(added[0] == after.last());
    } else {
        assert(after =~= after.subrange(0, before.len() as int));
    }
}

} // verus!
