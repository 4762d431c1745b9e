//! What an agent's run sees: its input, its state, fresh ids, and the sink
//! its events go out through.

use vstd::prelude::*;

use futures_channel::mpsc::UnboundedSender;

use crate::cancel::{CancellationToken, Cancelled};
use crate::event::{Event, TextMessageRole};
use crate::ids::{MessageId, RunId, ThreadId, ToolCallId};
use crate::input::{Context, RunAgentInput, Tool};
use crate::message::Message;
use crate::outcome::ResumeEntry;
use crate::server_verify::violation;
use crate::sink::{sent_in_order, server_run, EmitError, EventSink};
use crate::sse::{decimal, decimal_text};
use crate::text::cat;
use crate::transform::{chain_run, TransformerChain};

verus! {

impl EmitError {
    /// Whether the run was cancelled.
    pub fn is_cancelled(&self) -> (cancelled: bool)
        ensures
            cancelled == (*self is Cancelled),
    {
        match self {
            EmitError::Cancelled => true,
            _ => false,
        }
    }

    /// Whether the receiving half of the channel is gone.
    pub fn is_disconnected(&self) -> (disconnected: bool)
        ensures
            disconnected == (*self is Disconnected),
    {
        match self {
            EmitError::Disconnected => true,
            _ => false,
        }
    }
}

/// Whether `after` is `before` followed by one whole assistant message
/// `id` that says `text`: its start, its text, and its end.
pub open spec fn said_in_full(before: Seq<Event>, after: Seq<Event>, id: Seq<char>, text: Seq<char>) -> bool {
    let n = before.len() as int;
    &&& after.len() == n + 3
    &&& after.take(n) == before
    &&& after[n] matches Event::TextMessageStart(p) && p.base.blank() && p.message_id@ == id
        && p.role == TextMessageRole::Assistant && p.name is None
    &&& after[n + 1] matches Event::TextMessageContent(p) && p.base.blank() && p.message_id@ == id && p.delta@ == text
    &&& after[n + 2] matches Event::TextMessageEnd(p) && p.base.blank() && p.message_id@ == id
}

/// What ids a run hands out start with: its run id, or `run` where that is
/// empty.
pub open spec fn id_prefix_of(input: RunAgentInput) -> Seq<char> {
    if input.run_id@.len() == 0 {
        "run"@
    } else {
        input.run_id@
    }
}

/// The `n`th message id a run hands out.
pub open spec fn nth_message_id(input: RunAgentInput, n: nat) -> Seq<char> {
    id_prefix_of(input) + "-msg-"@ + decimal_text(n)
}

/// The `n`th tool call id a run hands out.
pub open spec fn nth_tool_call_id(input: RunAgentInput, n: nat) -> Seq<char> {
    id_prefix_of(input) + "-call-"@ + decimal_text(n)
}

/// The first of `tools` named `name`.
pub open spec fn first_tool(tools: Seq<Tool>, name: Seq<char>) -> Option<int> {
    if exists|i: int| 0 <= i < tools.len() && tools[i].name@ == name && forall|j: int| 0 <= j < i ==> tools[j].name@ != name {
        Some(choose|i: int| 0 <= i < tools.len() && tools[i].name@ == name && forall|j: int| 0 <= j < i ==> tools[j].name@ != name)
    } else {
        None
    }
}

/// The first of `entries` answering the interrupt `id`.
pub open spec fn first_entry(entries: Seq<ResumeEntry>, id: Seq<char>) -> Option<int> {
    if exists|i: int| 0 <= i < entries.len() && entries[i].interrupt_id@ == id && forall|j: int| 0 <= j < i ==> entries[j].interrupt_id@ != id {
        Some(choose|i: int| 0 <= i < entries.len() && entries[i].interrupt_id@ == id && forall|j: int| 0 <= j < i ==> entries[j].interrupt_id@ != id)
    } else {
        None
    }
}

/// The resume entries of an input; none where it carries none.
pub open spec fn resume_of(input: RunAgentInput) -> Seq<ResumeEntry> {
    match input.resume {
        Some(entries) => entries@,
        None => Seq::empty(),
    }
}

/// One run of an agent.
pub struct RunContext<S> {
    input: RunAgentInput,
    state: S,
    sink: EventSink,
    next_message: usize,
    next_tool_call: usize,
}

impl<S> RunContext<S> {
    /// The run's input.
    pub closed spec fn input_spec(&self) -> RunAgentInput {
        self.input
    }

    /// The run's state.
    pub closed spec fn state_spec(&self) -> S {
        self.state
    }

    /// The sink the run emits through.
    pub closed spec fn sink_spec(&self) -> EventSink {
        self.sink
    }

    /// How many message ids the run has handed out.
    pub closed spec fn messages_issued(&self) -> nat {
        self.next_message as nat
    }

    /// How many tool call ids the run has handed out.
    pub closed spec fn tool_calls_issued(&self) -> nat {
        self.next_tool_call as nat
    }

    /// A run over `input` and `state`, emitting through `sink`.
    pub fn from_parts(input: RunAgentInput, state: S, sink: EventSink) -> (ctx: Self)
        ensures
            ctx.input_spec() == input,
            ctx.state_spec() == state,
            ctx.sink_spec() == sink,
            ctx.messages_issued() == 0,
            ctx.tool_calls_issued() == 0,
    {
        RunContext { input, state, sink, next_message: 0, next_tool_call: 0 }
    }

    /// A run over `input` and `state`, with no transformers, whose events go
    /// to `tx`.
    pub fn new(input: RunAgentInput, state: S, tx: UnboundedSender<Event>) -> (ctx: Self)
        ensures
            ctx.input_spec() == input,
            ctx.state_spec() == state,
            ctx.sink_spec().wf(),
            ctx.sink_spec().handed().len() == 0,
            ctx.sink_spec().chain_len() == 0,
            ctx.messages_issued() == 0,
            ctx.tool_calls_issued() == 0,
    {
        let sink = EventSink::new(tx, TransformerChain::new(), CancellationToken::new());
        Self::from_parts(input, state, sink)
    }

    /// The run's state.
    pub fn state(&self) -> (state: &S)
        ensures
            *state == self.state_spec(),
    {
        &self.state
    }

    /// The run's state, to change in place; nothing is published.
    pub fn state_mut(&mut self) -> (state: &mut S)
        ensures
            *state == old(self).state_spec(),
            final(self).state_spec() == *final(state),
            final(self).input_spec() == old(self).input_spec(),
            final(self).sink_spec() == old(self).sink_spec(),
            final(self).messages_issued() == old(self).messages_issued(),
            final(self).tool_calls_issued() == old(self).tool_calls_issued(),
    {
        &mut self.state
    }

    /// Replaces the run's state, without publishing it.
    pub fn replace_state(&mut self, state: S)
        ensures
            final(self).state_spec() == state,
            final(self).input_spec() == old(self).input_spec(),
            final(self).sink_spec() == old(self).sink_spec(),
            final(self).messages_issued() == old(self).messages_issued(),
            final(self).tool_calls_issued() == old(self).tool_calls_issued(),
    {
        self.state = state;
    }

    /// The run's input.
    pub fn input(&self) -> (input: &RunAgentInput)
        ensures
            *input == self.input_spec(),
    {
        &self.input
    }

    /// The conversation.
    pub fn thread_id(&self) -> (id: &ThreadId)
        ensures
            *id == self.input_spec().thread_id,
    {
        &self.input.thread_id
    }

    /// This run.
    pub fn run_id(&self) -> (id: &RunId)
        ensures
            *id == self.input_spec().run_id,
    {
        &self.input.run_id
    }

    /// The run that spawned this one, if any.
    pub fn parent_run_id(&self) -> (id: Option<&RunId>)
        ensures
            match self.input_spec().parent_run_id {
                Some(p) => id == Some(&p),
                None => id is None,
            },
    {
        match &self.input.parent_run_id {
            Some(p) => Some(p),
            None => None,
        }
    }

    /// The conversation so far.
    pub fn messages(&self) -> (messages: &[Message])
        ensures
            messages@ == self.input_spec().messages@,
    {
        self.input.messages.as_slice()
    }

    /// The tools the client offers.
    pub fn tools(&self) -> (tools: &[Tool])
        ensures
            tools@ == self.input_spec().tools@,
    {
        self.input.tools.as_slice()
    }

    /// The first tool named `name`, if the client offers one.
    pub fn tool(&self, name: &str) -> (tool: Option<&Tool>)
        ensures
            match first_tool(self.input_spec().tools@, name@) {
                Some(i) => tool == Some(&self.input_spec().tools@[i]),
                None => tool is None,
            },
    {
        let tools = &self.input.tools;
        let wanted = name.to_owned();
        let mut i: usize = 0;
        while i < tools.len()
            invariant
                tools@ == self.input_spec().tools@,
                i <= tools@.len(),
                wanted@ == name@,
                forall|j: int| 0 <= j < i ==> tools@[j].name@ != name@,
            decreases tools@.len() - i,
        {
            if tools[i].name == wanted {
                let ghost c = choose|c: int| 0 <= c < tools@.len() && tools@[c].name@ == name@ && forall|j: int| 0 <= j < c ==> tools@[j].name@ != name@;
                assert(0 <= i < tools@.len() && tools@[i as int].name@ == name@ && forall|j: int| 0 <= j < i ==> tools@[j].name@ != name@);
                assert(c == i) by {
                    if c < i {
                        assert(tools@[c].name@ != name@);
                    } else if c > i {
                        assert(tools@[i as int].name@ == name@);
                    }
                }
                return Some(&tools[i]);
            }
            i = i + 1;
        }
        None
    }

    /// Context the client supplied.
    pub fn context(&self) -> (context: &[Context])
        ensures
            context@ == self.input_spec().context@,
    {
        self.input.context.as_slice()
    }

    /// Properties passed through from the client.
    pub fn forwarded_props(&self) -> (props: &serde_json::Value)
        ensures
            *props == self.input_spec().forwarded_props,
    {
        &self.input.forwarded_props
    }

    /// The answers to interrupts this run resumes with; none for a fresh run.
    pub fn resume(&self) -> (entries: &[ResumeEntry])
        ensures
            entries@ == resume_of(self.input_spec()),
    {
        match &self.input.resume {
            Some(entries) => entries.as_slice(),
            None => &[],
        }
    }

    /// The answer to the interrupt `interrupt_id`, if this run carries one.
    pub fn resume_for(&self, interrupt_id: &str) -> (entry: Option<&ResumeEntry>)
        ensures
            match first_entry(resume_of(self.input_spec()), interrupt_id@) {
                Some(i) => entry == Some(&resume_of(self.input_spec())[i]),
                None => entry is None,
            },
    {
        let entries = self.resume();
        let wanted = interrupt_id.to_owned();
        let mut i: usize = 0;
        while i < entries.len()
            invariant
                entries@ == resume_of(self.input_spec()),
                i <= entries@.len(),
                wanted@ == interrupt_id@,
                forall|j: int| 0 <= j < i ==> entries@[j].interrupt_id@ != interrupt_id@,
            decreases entries@.len() - i,
        {
            if entries[i].interrupt_id == wanted {
                let ghost es = entries@;
                let ghost c = choose|c: int| 0 <= c < es.len() && es[c].interrupt_id@ == interrupt_id@ && forall|j: int| 0 <= j < c ==> es[j].interrupt_id@ != interrupt_id@;
                assert(0 <= i < es.len() && es[i as int].interrupt_id@ == interrupt_id@ && forall|j: int| 0 <= j < i ==> es[j].interrupt_id@ != interrupt_id@);
                assert(c == i) by {
                    if c < i {
                        assert(es[c].interrupt_id@ != interrupt_id@);
                    } else if c > i {
                        assert(es[i as int].interrupt_id@ == interrupt_id@);
                    }
                }
                return Some(&entries[i]);
            }
            i = i + 1;
        }
        None
    }

    /// Whether this run resumes from interrupts.
    pub fn is_resume(&self) -> (resumes: bool)
        ensures
            resumes == (self.input_spec().resume is Some),
    {
        self.input.is_resume()
    }

    /// Whether the run has been cancelled.
    pub fn is_cancelled(&self) -> bool {
        self.sink.cancel_token().is_cancelled()
    }

    /// `Err(Cancelled)` once the run has been cancelled.
    pub fn check_cancelled(&self) -> (checked: Result<(), EmitError>)
        ensures
            checked is Ok || checked matches Err(EmitError::Cancelled),
    {
        if self.is_cancelled() {
            return Err(EmitError::Cancelled);
        }
        Ok(())
    }

    /// The run's cancellation token, shared.
    pub fn cancel_token(&self) -> (token: CancellationToken)
        ensures
            token == self.sink_spec().token(),
    {
        self.sink.cancel_token().clone()
    }

    /// Something to wait on until the run is cancelled: a wait on the run's
    /// own token.
    pub fn cancelled(&self) -> (waiter: Cancelled)
        ensures
            waiter.token_spec() == self.sink_spec().token(),
    {
        self.sink.cancel_token().cancelled()
    }

    /// Emits `event` through the run's transformers and verifier.
    pub fn emit(&mut self, event: Event) -> (sent: Result<(), EmitError>)
        requires
            old(self).sink_spec().wf(),
        ensures
            final(self).sink_spec().wf(),
            final(self).sink_spec().chain_len() == old(self).sink_spec().chain_len(),
            old(self).sink_spec().handed().len() <= final(self).sink_spec().handed().len(),
            final(self).sink_spec().handed().subrange(0, old(self).sink_spec().handed().len() as int)
                == old(self).sink_spec().handed(),
            sent matches Err(EmitError::Cancelled) ==> final(self).sink_spec().handed() == old(self).sink_spec().handed()
                && final(self).sink_spec().stages() == old(self).sink_spec().stages(),
            !(sent matches Err(EmitError::Cancelled)) ==> exists|out: Seq<Event>| {
                &&& #[trigger] chain_run(old(self).sink_spec().stages(), final(self).sink_spec().stages(), event, out)
                &&& sent_in_order(old(self).sink_spec().handed(), out, final(self).sink_spec().handed(), sent)
            },
            !(sent matches Err(EmitError::Cancelled)) && old(self).sink_spec().chain_len() == 0 ==> match violation(
                server_run(old(self).sink_spec().handed()),
                event,
            ) {
                Some(_) => sent matches Err(EmitError::Violation(_)) && final(self).sink_spec().handed()
                    == old(self).sink_spec().handed(),
                None => final(self).sink_spec().handed() == old(self).sink_spec().handed().push(event) && (sent is Ok
                    || sent matches Err(EmitError::Disconnected)),
            },
            final(self).input_spec() == old(self).input_spec(),
            final(self).messages_issued() == old(self).messages_issued(),
            final(self).tool_calls_issued() == old(self).tool_calls_issued(),
    {
        self.sink.emit(event)
    }

    /// What ids the run hands out start with.
    fn id_prefix(&self) -> (prefix: &str)
        ensures
            prefix@ == id_prefix_of(self.input_spec()),
    {
        if self.input.run_id.is_empty() {
            "run"
        } else {
            self.input.run_id.as_str()
        }
    }

    /// A fresh message id, derived from the run id.
    pub fn new_message_id(&mut self) -> (id: MessageId)
        requires
            old(self).messages_issued() < usize::MAX,
        ensures
            final(self).messages_issued() == old(self).messages_issued() + 1,
            id@ == nth_message_id(old(self).input_spec(), old(self).messages_issued() + 1),
            final(self).input_spec() == old(self).input_spec(),
            final(self).sink_spec() == old(self).sink_spec(),
            final(self).tool_calls_issued() == old(self).tool_calls_issued(),
    {
        self.next_message = self.next_message + 1;
        let text = cat(self.id_prefix().to_owned(), "-msg-");
        let text = cat(text, decimal(self.next_message).as_str());
        MessageId::from_string(text)
    }

    /// A fresh tool call id, derived from the run id.
    pub fn new_tool_call_id(&mut self) -> (id: ToolCallId)
        requires
            old(self).tool_calls_issued() < usize::MAX,
        ensures
            final(self).tool_calls_issued() == old(self).tool_calls_issued() + 1,
            id@ == nth_tool_call_id(old(self).input_spec(), old(self).tool_calls_issued() + 1),
            final(self).input_spec() == old(self).input_spec(),
            final(self).sink_spec() == old(self).sink_spec(),
            final(self).messages_issued() == old(self).messages_issued(),
    {
        self.next_tool_call = self.next_tool_call + 1;
        let text = cat(self.id_prefix().to_owned(), "-call-");
        let text = cat(text, decimal(self.next_tool_call).as_str());
        ToolCallId::from_string(text)
    }

    /// Says `text` as one whole assistant message: its start, its content
    /// and its end. Where the content cannot be emitted, the end still is
    /// tried, so the message is not left open.
    pub fn say(&mut self, text: &str) -> (said: Result<MessageId, EmitError>)
        requires
            old(self).sink_spec().wf(),
            old(self).messages_issued() < usize::MAX,
        ensures
            final(self).sink_spec().wf(),
            final(self).messages_issued() == old(self).messages_issued() + 1,
            final(self).input_spec() == old(self).input_spec(),
            old(self).sink_spec().handed().len() <= final(self).sink_spec().handed().len(),
            final(self).sink_spec().handed().subrange(0, old(self).sink_spec().handed().len() as int)
                == old(self).sink_spec().handed(),
            final(self).sink_spec().chain_len() == old(self).sink_spec().chain_len(),
            said matches Ok(id) ==> id@ == nth_message_id(old(self).input_spec(), old(self).messages_issued() + 1),
            said matches Ok(id) ==> (old(self).sink_spec().chain_len() == 0 ==> said_in_full(
                old(self).sink_spec().handed(),
                final(self).sink_spec().handed(),
                id@,
                text@,
            )),
    {
        let id = self.new_message_id();
        let ghost h0 = self.sink.handed();
        self.emit(Event::text_message_start(id.as_str(), TextMessageRole::Assistant))?;
        match self.emit(Event::text_message_content(id.as_str(), text)) {
            Ok(()) => {},
            Err(error) => {
                let _ = self.emit(Event::text_message_end(id.as_str()));
                proof {
                    assert(self.sink.handed().subrange(0, h0.len() as int) =~= h0);
                }
                return Err(error);
            },
        }
        self.emit(Event::text_message_end(id.as_str()))?;
        proof {
            assert(self.sink.handed().subrange(0, h0.len() as int) =~= h0);
            if old(self).sink_spec().chain_len() == 0 {
                assert(self.sink.handed().take(h0.len() as int) =~= h0);
            }
        }
        Ok(id)
    }

    /// Whether an event that ends the run has gone out.
    pub fn is_terminated(&self) -> (terminated: bool)
        requires
            self.sink_spec().wf(),
        ensures
            terminated == crate::sink::ended(self.sink_spec().handed()),
    {
        self.sink.is_terminated()
    }

    /// The sink, once the run is over.
    pub fn into_sink(self) -> (sink: EventSink)
        ensures
            sink == self.sink_spec(),
    {
        self.sink
    }
}

} // verus!
