//! Constructors for every event, each with an empty base.

use vstd::prelude::*;

use crate::event::{
    ActivityDeltaEvent, ActivitySnapshotEvent, BaseEvent, CustomEvent, Event, MessagesSnapshotEvent, RawEvent, ReasoningEncryptedValueEvent,
    ReasoningEncryptedValueSubtype, ReasoningEndEvent, ReasoningMessageChunkEvent,
    ReasoningMessageContentEvent, ReasoningMessageEndEvent, ReasoningMessageStartEvent,
    ReasoningRole, ReasoningStartEvent, RunErrorEvent, RunFinishedEvent, RunStartedEvent,
    StateDeltaEvent, StateSnapshotEvent, StepFinishedEvent, StepStartedEvent,
    TextMessageChunkEvent, TextMessageContentEvent, TextMessageEndEvent, TextMessageRole,
    TextMessageStartEvent, ToolCallArgsEvent, ToolCallChunkEvent, ToolCallEndEvent,
    ToolCallResultEvent, ToolCallStartEvent,
};
use crate::ids::{MessageId, RunId, StepName, ThreadId, ToolCallId};
use crate::message::Message;
use crate::outcome::{Interrupt, RunOutcome};
use crate::patch::PatchOperation;

verus! {

impl Event {
    /// Opens a text message.
    pub fn text_message_start(message_id: &str, role: TextMessageRole) -> (event: Event)
        ensures
            event matches Event::TextMessageStart(p) && p.base.blank() && p.message_id@ == message_id@ && p.role == role && p.name is None,
    {
        Event::TextMessageStart(TextMessageStartEvent {
            base: BaseEvent::new(),
            message_id: MessageId::new(message_id),
            role: role,
            name: None,
        })
    }

    /// Appends text to an open message.
    pub fn text_message_content(message_id: &str, delta: &str) -> (event: Event)
        ensures
            event matches Event::TextMessageContent(p) && p.base.blank() && p.message_id@ == message_id@ && p.delta@ == delta@,
    {
        Event::TextMessageContent(TextMessageContentEvent {
            base: BaseEvent::new(),
            message_id: MessageId::new(message_id),
            delta: delta.to_owned(),
        })
    }

    /// Closes a text message.
    pub fn text_message_end(message_id: &str) -> (event: Event)
        ensures
            event matches Event::TextMessageEnd(p) && p.base.blank() && p.message_id@ == message_id@,
    {
        Event::TextMessageEnd(TextMessageEndEvent {
            base: BaseEvent::new(),
            message_id: MessageId::new(message_id),
        })
    }

    /// A text chunk: the id and role travel on the first chunk only.
    pub fn text_message_chunk(message_id: Option<MessageId>, delta: Option<String>) -> (event: Event)
        ensures
            event matches Event::TextMessageChunk(p) && p.base.blank() && p.message_id == message_id && p.role is None && p.delta == delta && p.name is None,
    {
        Event::TextMessageChunk(TextMessageChunkEvent {
            base: BaseEvent::new(),
            message_id: message_id,
            role: None,
            delta: delta,
            name: None,
        })
    }

    /// Opens a tool call.
    pub fn tool_call_start(tool_call_id: &str, tool_call_name: &str) -> (event: Event)
        ensures
            event matches Event::ToolCallStart(p) && p.base.blank() && p.tool_call_id@ == tool_call_id@ && p.tool_call_name@ == tool_call_name@ && p.parent_message_id is None,
    {
        Event::ToolCallStart(ToolCallStartEvent {
            base: BaseEvent::new(),
            tool_call_id: ToolCallId::new(tool_call_id),
            tool_call_name: tool_call_name.to_owned(),
            parent_message_id: None,
        })
    }

    /// Appends argument JSON to an open tool call.
    pub fn tool_call_args(tool_call_id: &str, delta: &str) -> (event: Event)
        ensures
            event matches Event::ToolCallArgs(p) && p.base.blank() && p.tool_call_id@ == tool_call_id@ && p.delta@ == delta@,
    {
        Event::ToolCallArgs(ToolCallArgsEvent {
            base: BaseEvent::new(),
            tool_call_id: ToolCallId::new(tool_call_id),
            delta: delta.to_owned(),
        })
    }

    /// Closes a tool call.
    pub fn tool_call_end(tool_call_id: &str) -> (event: Event)
        ensures
            event matches Event::ToolCallEnd(p) && p.base.blank() && p.tool_call_id@ == tool_call_id@,
    {
        Event::ToolCallEnd(ToolCallEndEvent {
            base: BaseEvent::new(),
            tool_call_id: ToolCallId::new(tool_call_id),
        })
    }

    /// A tool call chunk: the id and name travel on the first chunk only.
    pub fn tool_call_chunk(tool_call_id: Option<ToolCallId>, tool_call_name: Option<String>, delta: Option<String>) -> (event: Event)
        ensures
            event matches Event::ToolCallChunk(p) && p.base.blank() && p.tool_call_id == tool_call_id && p.tool_call_name == tool_call_name && p.parent_message_id is None && p.delta == delta,
    {
        Event::ToolCallChunk(ToolCallChunkEvent {
            base: BaseEvent::new(),
            tool_call_id: tool_call_id,
            tool_call_name: tool_call_name,
            parent_message_id: None,
            delta: delta,
        })
    }

    /// A tool call's result, carried by tool message `message_id`.
    pub fn tool_call_result(message_id: &str, tool_call_id: &str, content: &str) -> (event: Event)
        ensures
            event matches Event::ToolCallResult(p) && p.base.blank() && p.message_id@ == message_id@ && p.tool_call_id@ == tool_call_id@ && p.content@ == content@ && p.role is None,
    {
        Event::ToolCallResult(ToolCallResultEvent {
            base: BaseEvent::new(),
            message_id: MessageId::new(message_id),
            tool_call_id: ToolCallId::new(tool_call_id),
            content: content.to_owned(),
            role: None,
        })
    }

    /// Opens a reasoning block.
    pub fn reasoning_start(message_id: &str) -> (event: Event)
        ensures
            event matches Event::ReasoningStart(p) && p.base.blank() && p.message_id@ == message_id@,
    {
        Event::ReasoningStart(ReasoningStartEvent {
            base: BaseEvent::new(),
            message_id: MessageId::new(message_id),
        })
    }

    /// Opens a reasoning message.
    pub fn reasoning_message_start(message_id: &str) -> (event: Event)
        ensures
            event matches Event::ReasoningMessageStart(p) && p.base.blank() && p.message_id@ == message_id@ && p.role == ReasoningRole::Reasoning,
    {
        Event::ReasoningMessageStart(ReasoningMessageStartEvent {
            base: BaseEvent::new(),
            message_id: MessageId::new(message_id),
            role: ReasoningRole::Reasoning,
        })
    }

    /// Appends reasoning text.
    pub fn reasoning_message_content(message_id: &str, delta: &str) -> (event: Event)
        ensures
            event matches Event::ReasoningMessageContent(p) && p.base.blank() && p.message_id@ == message_id@ && p.delta@ == delta@,
    {
        Event::ReasoningMessageContent(ReasoningMessageContentEvent {
            base: BaseEvent::new(),
            message_id: MessageId::new(message_id),
            delta: delta.to_owned(),
        })
    }

    /// Closes a reasoning message.
    pub fn reasoning_message_end(message_id: &str) -> (event: Event)
        ensures
            event matches Event::ReasoningMessageEnd(p) && p.base.blank() && p.message_id@ == message_id@,
    {
        Event::ReasoningMessageEnd(ReasoningMessageEndEvent {
            base: BaseEvent::new(),
            message_id: MessageId::new(message_id),
        })
    }

    /// A reasoning chunk: the id travels on the first chunk only.
    pub fn reasoning_message_chunk(message_id: Option<MessageId>, delta: Option<String>) -> (event: Event)
        ensures
            event matches Event::ReasoningMessageChunk(p) && p.base.blank() && p.message_id == message_id && p.delta == delta,
    {
        Event::ReasoningMessageChunk(ReasoningMessageChunkEvent {
            base: BaseEvent::new(),
            message_id: message_id,
            delta: delta,
        })
    }

    /// Closes a reasoning block.
    pub fn reasoning_end(message_id: &str) -> (event: Event)
        ensures
            event matches Event::ReasoningEnd(p) && p.base.blank() && p.message_id@ == message_id@,
    {
        Event::ReasoningEnd(ReasoningEndEvent {
            base: BaseEvent::new(),
            message_id: MessageId::new(message_id),
        })
    }

    /// Attaches an encrypted reasoning blob to a message or call.
    pub fn reasoning_encrypted_value(subtype: ReasoningEncryptedValueSubtype, entity_id: &str, encrypted_value: &str) -> (event: Event)
        ensures
            event matches Event::ReasoningEncryptedValue(p) && p.base.blank() && p.subtype == subtype && p.entity_id@ == entity_id@ && p.encrypted_value@ == encrypted_value@,
    {
        Event::ReasoningEncryptedValue(ReasoningEncryptedValueEvent {
            base: BaseEvent::new(),
            subtype: subtype,
            entity_id: entity_id.to_owned(),
            encrypted_value: encrypted_value.to_owned(),
        })
    }

    /// Starts a step.
    pub fn step_started(step_name: &str) -> (event: Event)
        ensures
            event matches Event::StepStarted(p) && p.base.blank() && p.step_name@ == step_name@,
    {
        Event::StepStarted(StepStartedEvent {
            base: BaseEvent::new(),
            step_name: StepName::new(step_name),
        })
    }

    /// Finishes a step.
    pub fn step_finished(step_name: &str) -> (event: Event)
        ensures
            event matches Event::StepFinished(p) && p.base.blank() && p.step_name@ == step_name@,
    {
        Event::StepFinished(StepFinishedEvent {
            base: BaseEvent::new(),
            step_name: StepName::new(step_name),
        })
    }

    /// Replaces the shared state.
    pub fn state_snapshot(snapshot: serde_json::Value) -> (event: Event)
        ensures
            event matches Event::StateSnapshot(p) && p.base.blank() && p.snapshot == snapshot,
    {
        Event::StateSnapshot(StateSnapshotEvent {
            base: BaseEvent::new(),
            snapshot: snapshot,
        })
    }

    /// Patches the shared state.
    pub fn state_delta(delta: Vec<PatchOperation>) -> (event: Event)
        ensures
            event matches Event::StateDelta(p) && p.base.blank() && p.delta == delta,
    {
        Event::StateDelta(StateDeltaEvent {
            base: BaseEvent::new(),
            delta: delta,
        })
    }

    /// Replaces the message history.
    pub fn messages_snapshot(messages: Vec<Message>) -> (event: Event)
        ensures
            event matches Event::MessagesSnapshot(p) && p.base.blank() && p.messages == messages,
    {
        Event::MessagesSnapshot(MessagesSnapshotEvent {
            base: BaseEvent::new(),
            messages: messages,
        })
    }

    /// An application-defined event.
    pub fn custom(name: &str, value: serde_json::Value) -> (event: Event)
        ensures
            event matches Event::Custom(p) && p.base.blank() && p.name@ == name@ && p.value == value,
    {
        Event::Custom(CustomEvent {
            base: BaseEvent::new(),
            name: name.to_owned(),
            value: value,
        })
    }

    /// Forwards a provider event.
    pub fn raw(provider_event: serde_json::Value) -> (event: Event)
        ensures
            event matches Event::Raw(p) && p.base.blank() && p.event == provider_event && p.source is None,
    {
        Event::Raw(RawEvent {
            base: BaseEvent::new(),
            event: provider_event,
            source: None,
        })
    }

    /// Starts run `run_id` in thread `thread_id`.
    pub fn run_started(thread_id: &str, run_id: &str) -> (event: Event)
        ensures
            event matches Event::RunStarted(p) && p.base.blank() && p.thread_id@ == thread_id@ && p.run_id@ == run_id@ && p.parent_run_id is None && p.input is None,
    {
        Event::RunStarted(RunStartedEvent {
            base: BaseEvent::new(),
            thread_id: ThreadId::new(thread_id),
            run_id: RunId::new(run_id),
            parent_run_id: None,
            input: None,
        })
    }

    /// Finishes a run successfully.
    pub fn run_finished_success(thread_id: &str, run_id: &str) -> (event: Event)
        ensures
            event matches Event::RunFinished(p) && p.base.blank() && p.thread_id@ == thread_id@ && p.run_id@ == run_id@ && p.result is None && p.outcome == Some(RunOutcome::Success),
    {
        Event::RunFinished(RunFinishedEvent {
            base: BaseEvent::new(),
            thread_id: ThreadId::new(thread_id),
            run_id: RunId::new(run_id),
            result: None,
            outcome: Some(RunOutcome::Success),
        })
    }

    /// Pauses a run on `interrupts`.
    pub fn run_finished_interrupt(thread_id: &str, run_id: &str, interrupts: Vec<Interrupt>) -> (event: Event)
        ensures
            event matches Event::RunFinished(p) && p.base.blank() && p.thread_id@ == thread_id@ && p.run_id@ == run_id@ && p.result is None && p.outcome == Some(RunOutcome::Interrupt { interrupts }),
    {
        Event::RunFinished(RunFinishedEvent {
            base: BaseEvent::new(),
            thread_id: ThreadId::new(thread_id),
            run_id: RunId::new(run_id),
            result: None,
            outcome: Some(RunOutcome::Interrupt { interrupts }),
        })
    }

    /// Fails a run.
    pub fn run_error(message: &str) -> (event: Event)
        ensures
            event matches Event::RunError(p) && p.base.blank() && p.message@ == message@ && p.code is None,
    {
        Event::RunError(RunErrorEvent {
            base: BaseEvent::new(),
            message: message.to_owned(),
            code: None,
        })
    }

    /// Publishes an activity, replacing what was there before.
    pub fn activity_snapshot(message_id: &str, activity_type: &str, content: serde_json::Value) -> (event: Event)
        ensures
            event matches Event::ActivitySnapshot(p) && p.base.blank() && p.message_id@ == message_id@
                && p.activity_type@ == activity_type@ && p.content == content && p.replace,
    {
        Event::ActivitySnapshot(ActivitySnapshotEvent::new(message_id, activity_type, content))
    }

    /// Patches an activity.
    pub fn activity_delta(message_id: &str, activity_type: &str, patch: Vec<PatchOperation>) -> (event: Event)
        ensures
            event matches Event::ActivityDelta(p) && p.base.blank() && p.message_id@ == message_id@
                && p.activity_type@ == activity_type@ && p.patch@ == patch@,
    {
        Event::ActivityDelta(ActivityDeltaEvent {
            base: BaseEvent::new(),
            message_id: MessageId::new(message_id),
            activity_type: activity_type.to_owned(),
            patch: patch,
        })
    }
}

impl ActivitySnapshotEvent {
    /// An activity snapshot that replaces the previous content.
    pub fn new(message_id: &str, activity_type: &str, content: serde_json::Value) -> (event: Self)
        ensures
            event.base.blank(),
            event.message_id@ == message_id@,
            event.activity_type@ == activity_type@,
            event.content == content,
            event.replace,
    {
        ActivitySnapshotEvent {
            base: BaseEvent::new(),
            message_id: MessageId::new(message_id),
            activity_type: activity_type.to_owned(),
            content: content,
            replace: true,
        }
    }
}

impl ToolCallStartEvent {
    /// Opens `tool_call_id`, a call to `tool_call_name`, carried by no message.
    pub fn new(tool_call_id: &str, tool_call_name: &str) -> (event: Self)
        ensures
            event.base.blank(),
            event.tool_call_id@ == tool_call_id@,
            event.tool_call_name@ == tool_call_name@,
            event.parent_message_id is None,
    {
        ToolCallStartEvent {
            base: BaseEvent::new(),
            tool_call_id: ToolCallId::new(tool_call_id),
            tool_call_name: tool_call_name.to_owned(),
            parent_message_id: None,
        }
    }
}

} // verus!
