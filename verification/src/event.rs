//! The event stream.
//!
//! An agent run is a sequence of these events. [`Event`] is the closed union
//! of all of them; [`EventType`] is its discriminator on its own.

use vstd::prelude::*;

use crate::ids::{MessageId, RunId, StepName, ThreadId, ToolCallId};
use crate::input::RunAgentInput;
use crate::message::Message;
use crate::outcome::{Interrupt, RunOutcome};
use crate::patch::PatchOperation;

verus! {

/// The fields every event may carry beside its own.
#[derive(Debug, Default, PartialEq)]
pub struct BaseEvent {
    /// When the event was produced, in milliseconds since the Unix epoch.
    pub timestamp: Option<i64>,
    /// The provider's own event behind this one, for debugging.
    pub raw_event: Option<serde_json::Value>,
    /// The subagent run that produced the event, when one did.
    pub subagent_run_id: Option<RunId>,
}

impl BaseEvent {
    /// Whether the base carries nothing.
    pub open spec fn blank(&self) -> bool {
        &&& self.timestamp is None
        &&& self.raw_event is None
        &&& self.subagent_run_id is None
    }

    /// An empty base.
    pub fn new() -> (base: Self)
        ensures
            base.blank(),
    {
        BaseEvent { timestamp: None, raw_event: None, subagent_run_id: None }
    }

    /// Whether every field is absent, in which case the base contributes
    /// nothing to the serialized event.
    pub fn is_empty(&self) -> (empty: bool)
        ensures
            empty == self.blank(),
    {
        self.timestamp.is_none() && self.raw_event.is_none() && self.subagent_run_id.is_none()
    }
}

impl Clone for BaseEvent {
    fn clone(&self) -> (copy: Self)
        ensures
            copy == *self,
    {
        let raw_event = match &self.raw_event {
            Some(value) => Some(value.clone()),
            None => None,
        };
        let subagent_run_id = match &self.subagent_run_id {
            Some(id) => Some(id.clone()),
            None => None,
        };
        BaseEvent { timestamp: self.timestamp, raw_event, subagent_run_id }
    }
}

/// Who speaks a text message.
#[derive(Clone, Copy, Debug, Default, PartialEq, Eq, Structural, Hash)]
pub enum TextMessageRole {
    /// Out-of-band instructions from the application developer.
    Developer,
    /// System prompt.
    System,
    /// Model output.
    #[default]
    Assistant,
    /// End-user input.
    User,
}

/// The role of a tool result message.
#[derive(Clone, Copy, Debug, Default, PartialEq, Eq, Structural, Hash)]
pub enum ToolResultRole {
    /// The only role a tool result has.
    #[default]
    Tool,
}

/// The role of a reasoning message.
#[derive(Clone, Copy, Debug, Default, PartialEq, Eq, Structural, Hash)]
pub enum ReasoningRole {
    /// The only role a reasoning message has.
    #[default]
    Reasoning,
}

/// What an encrypted reasoning blob is attached to.
#[derive(Clone, Copy, Debug, Default, PartialEq, Eq, Structural, Hash)]
pub enum ReasoningEncryptedValueSubtype {
    /// A tool call.
    #[default]
    ToolCall,
    /// A message.
    Message,
}

/// Opens a text message. Carried by `TEXT_MESSAGE_START`.
#[derive(Clone, Debug, PartialEq, Default)]
pub struct TextMessageStartEvent {
    /// Timestamp, raw provider event and subagent attribution.
    pub base: BaseEvent,
    /// The message being opened.
    pub message_id: MessageId,
    /// Who is speaking.
    pub role: TextMessageRole,
    /// Optional display name for the author.
    pub name: Option<String>,
}

/// Appends to a text message. Carried by `TEXT_MESSAGE_CONTENT`.
#[derive(Clone, Debug, PartialEq, Default)]
pub struct TextMessageContentEvent {
    /// Timestamp, raw provider event and subagent attribution.
    pub base: BaseEvent,
    /// The open message this text belongs to.
    pub message_id: MessageId,
    /// The text fragment.
    pub delta: String,
}

/// Closes a text message. Carried by `TEXT_MESSAGE_END`.
#[derive(Clone, Debug, PartialEq, Default)]
pub struct TextMessageEndEvent {
    /// Timestamp, raw provider event and subagent attribution.
    pub base: BaseEvent,
    /// The message being closed.
    pub message_id: MessageId,
}

/// A whole text update in one event. Carried by `TEXT_MESSAGE_CHUNK`.
#[derive(Clone, Debug, PartialEq, Default)]
pub struct TextMessageChunkEvent {
    /// Timestamp, raw provider event and subagent attribution.
    pub base: BaseEvent,
    /// The message, on the first chunk of a stream.
    pub message_id: Option<MessageId>,
    /// Who is speaking, on the first chunk.
    pub role: Option<TextMessageRole>,
    /// The text fragment.
    pub delta: Option<String>,
    /// Optional display name for the author.
    pub name: Option<String>,
}

/// Opens a tool call. Carried by `TOOL_CALL_START`.
#[derive(Clone, Debug, PartialEq)]
pub struct ToolCallStartEvent {
    /// Timestamp, raw provider event and subagent attribution.
    pub base: BaseEvent,
    /// The call being opened.
    pub tool_call_id: ToolCallId,
    /// The tool being called.
    pub tool_call_name: String,
    /// The assistant message that carries the call.
    pub parent_message_id: Option<MessageId>,
}

/// Appends tool-call arguments. Carried by `TOOL_CALL_ARGS`.
#[derive(Clone, Debug, PartialEq, Default)]
pub struct ToolCallArgsEvent {
    /// Timestamp, raw provider event and subagent attribution.
    pub base: BaseEvent,
    /// The open call.
    pub tool_call_id: ToolCallId,
    /// A fragment of the argument JSON.
    pub delta: String,
}

/// Closes a tool call. Carried by `TOOL_CALL_END`.
#[derive(Clone, Debug, PartialEq, Default)]
pub struct ToolCallEndEvent {
    /// Timestamp, raw provider event and subagent attribution.
    pub base: BaseEvent,
    /// The call being closed.
    pub tool_call_id: ToolCallId,
}

/// A whole tool call update in one event. Carried by `TOOL_CALL_CHUNK`.
#[derive(Clone, Debug, PartialEq, Default)]
pub struct ToolCallChunkEvent {
    /// Timestamp, raw provider event and subagent attribution.
    pub base: BaseEvent,
    /// The call, on the first chunk of a stream.
    pub tool_call_id: Option<ToolCallId>,
    /// The tool, on the first chunk.
    pub tool_call_name: Option<String>,
    /// The assistant message that carries the call.
    pub parent_message_id: Option<MessageId>,
    /// A fragment of the argument JSON.
    pub delta: Option<String>,
}

/// A tool call's result. Carried by `TOOL_CALL_RESULT`.
#[derive(Clone, Debug, PartialEq, Default)]
pub struct ToolCallResultEvent {
    /// Timestamp, raw provider event and subagent attribution.
    pub base: BaseEvent,
    /// The tool message carrying the result.
    pub message_id: MessageId,
    /// The call this answers.
    pub tool_call_id: ToolCallId,
    /// The result, rendered to a string.
    pub content: String,
    /// The role of the result message.
    pub role: Option<ToolResultRole>,
}

/// Opens a thinking block (deprecated). Carried by `THINKING_START`.
#[derive(Clone, Debug, PartialEq, Default)]
pub struct ThinkingStartEvent {
    /// Timestamp, raw provider event and subagent attribution.
    pub base: BaseEvent,
    /// A title for the block.
    pub title: Option<String>,
}

/// Closes a thinking block (deprecated). Carried by `THINKING_END`.
#[derive(Clone, Debug, PartialEq, Default)]
pub struct ThinkingEndEvent {
    /// Timestamp, raw provider event and subagent attribution.
    pub base: BaseEvent,
}

/// Opens a thinking message (deprecated). Carried by `THINKING_TEXT_MESSAGE_START`.
#[derive(Clone, Debug, PartialEq, Default)]
pub struct ThinkingTextMessageStartEvent {
    /// Timestamp, raw provider event and subagent attribution.
    pub base: BaseEvent,
}

/// Appends thinking text (deprecated). Carried by `THINKING_TEXT_MESSAGE_CONTENT`.
#[derive(Clone, Debug, PartialEq, Default)]
pub struct ThinkingTextMessageContentEvent {
    /// Timestamp, raw provider event and subagent attribution.
    pub base: BaseEvent,
    /// The text fragment.
    pub delta: String,
}

/// Closes a thinking message (deprecated). Carried by `THINKING_TEXT_MESSAGE_END`.
#[derive(Clone, Debug, PartialEq, Default)]
pub struct ThinkingTextMessageEndEvent {
    /// Timestamp, raw provider event and subagent attribution.
    pub base: BaseEvent,
}

/// Replaces the shared state. Carried by `STATE_SNAPSHOT`.
#[derive(Clone, Debug, PartialEq, Default)]
pub struct StateSnapshotEvent {
    /// Timestamp, raw provider event and subagent attribution.
    pub base: BaseEvent,
    /// The complete new state.
    pub snapshot: serde_json::Value,
}

/// Patches the shared state. Carried by `STATE_DELTA`.
#[derive(Clone, Debug, PartialEq, Default)]
pub struct StateDeltaEvent {
    /// Timestamp, raw provider event and subagent attribution.
    pub base: BaseEvent,
    /// RFC 6902 operations, applied in order.
    pub delta: Vec<PatchOperation>,
}

/// Replaces the message history. Carried by `MESSAGES_SNAPSHOT`.
#[derive(Clone, Debug, PartialEq, Default)]
pub struct MessagesSnapshotEvent {
    /// Timestamp, raw provider event and subagent attribution.
    pub base: BaseEvent,
    /// The complete message list, oldest first.
    pub messages: Vec<Message>,
}

/// Publishes an activity. Carried by `ACTIVITY_SNAPSHOT`.
#[derive(Clone, Debug, PartialEq, Default)]
pub struct ActivitySnapshotEvent {
    /// Timestamp, raw provider event and subagent attribution.
    pub base: BaseEvent,
    /// The activity message.
    pub message_id: MessageId,
    /// Client-defined activity discriminator.
    pub activity_type: String,
    /// The activity payload.
    pub content: serde_json::Value,
    /// Whether the content replaces the previous one (the default) or merges
    /// into it.
    pub replace: bool,
}

/// Patches an activity. Carried by `ACTIVITY_DELTA`.
#[derive(Clone, Debug, PartialEq, Default)]
pub struct ActivityDeltaEvent {
    /// Timestamp, raw provider event and subagent attribution.
    pub base: BaseEvent,
    /// The activity message.
    pub message_id: MessageId,
    /// Client-defined activity discriminator.
    pub activity_type: String,
    /// RFC 6902 operations against the activity's content.
    pub patch: Vec<PatchOperation>,
}

/// Forwards a provider event. Carried by `RAW`.
#[derive(Clone, Debug, PartialEq, Default)]
pub struct RawEvent {
    /// Timestamp, raw provider event and subagent attribution.
    pub base: BaseEvent,
    /// The provider event.
    pub event: serde_json::Value,
    /// Where it came from.
    pub source: Option<String>,
}

/// An application-defined event. Carried by `CUSTOM`.
#[derive(Clone, Debug, PartialEq, Default)]
pub struct CustomEvent {
    /// Timestamp, raw provider event and subagent attribution.
    pub base: BaseEvent,
    /// The event's application-defined name.
    pub name: String,
    /// Its payload.
    pub value: serde_json::Value,
}

/// Starts a run. Carried by `RUN_STARTED`.
#[derive(Clone, Debug, PartialEq, Default)]
pub struct RunStartedEvent {
    /// Timestamp, raw provider event and subagent attribution.
    pub base: BaseEvent,
    /// The conversation.
    pub thread_id: ThreadId,
    /// The run.
    pub run_id: RunId,
    /// The run that spawned this one.
    pub parent_run_id: Option<RunId>,
    /// The request the run was started with, echoed.
    pub input: Option<RunAgentInput>,
}

/// Finishes or pauses a run. Carried by `RUN_FINISHED`.
#[derive(Clone, Debug, PartialEq, Default)]
pub struct RunFinishedEvent {
    /// Timestamp, raw provider event and subagent attribution.
    pub base: BaseEvent,
    /// The conversation.
    pub thread_id: ThreadId,
    /// The run.
    pub run_id: RunId,
    /// The agent's return value.
    pub result: Option<serde_json::Value>,
    /// Success, or the interrupts the run paused on.
    pub outcome: Option<RunOutcome>,
}

/// Fails a run. Carried by `RUN_ERROR`.
#[derive(Clone, Debug, PartialEq, Default)]
pub struct RunErrorEvent {
    /// Timestamp, raw provider event and subagent attribution.
    pub base: BaseEvent,
    /// What went wrong, for a human.
    pub message: String,
    /// The machine-readable code.
    pub code: Option<String>,
}

/// Starts a step. Carried by `STEP_STARTED`.
#[derive(Clone, Debug, PartialEq, Default)]
pub struct StepStartedEvent {
    /// Timestamp, raw provider event and subagent attribution.
    pub base: BaseEvent,
    /// The step.
    pub step_name: StepName,
}

/// Finishes a step. Carried by `STEP_FINISHED`.
#[derive(Clone, Debug, PartialEq, Default)]
pub struct StepFinishedEvent {
    /// Timestamp, raw provider event and subagent attribution.
    pub base: BaseEvent,
    /// The step.
    pub step_name: StepName,
}

/// Opens a reasoning block. Carried by `REASONING_START`.
#[derive(Clone, Debug, PartialEq, Default)]
pub struct ReasoningStartEvent {
    /// Timestamp, raw provider event and subagent attribution.
    pub base: BaseEvent,
    /// The reasoning block.
    pub message_id: MessageId,
}

/// Opens a reasoning message. Carried by `REASONING_MESSAGE_START`.
#[derive(Clone, Debug, PartialEq, Default)]
pub struct ReasoningMessageStartEvent {
    /// Timestamp, raw provider event and subagent attribution.
    pub base: BaseEvent,
    /// The reasoning message being opened.
    pub message_id: MessageId,
    /// The role of the message.
    pub role: ReasoningRole,
}

/// Appends reasoning text. Carried by `REASONING_MESSAGE_CONTENT`.
#[derive(Clone, Debug, PartialEq, Default)]
pub struct ReasoningMessageContentEvent {
    /// Timestamp, raw provider event and subagent attribution.
    pub base: BaseEvent,
    /// The open reasoning message.
    pub message_id: MessageId,
    /// The text fragment.
    pub delta: String,
}

/// Closes a reasoning message. Carried by `REASONING_MESSAGE_END`.
#[derive(Clone, Debug, PartialEq, Default)]
pub struct ReasoningMessageEndEvent {
    /// Timestamp, raw provider event and subagent attribution.
    pub base: BaseEvent,
    /// The reasoning message being closed.
    pub message_id: MessageId,
}

/// A whole reasoning update in one event. Carried by `REASONING_MESSAGE_CHUNK`.
#[derive(Clone, Debug, PartialEq, Default)]
pub struct ReasoningMessageChunkEvent {
    /// Timestamp, raw provider event and subagent attribution.
    pub base: BaseEvent,
    /// The message, on the first chunk of a stream.
    pub message_id: Option<MessageId>,
    /// The text fragment.
    pub delta: Option<String>,
}

/// Closes a reasoning block. Carried by `REASONING_END`.
#[derive(Clone, Debug, PartialEq, Default)]
pub struct ReasoningEndEvent {
    /// Timestamp, raw provider event and subagent attribution.
    pub base: BaseEvent,
    /// The reasoning block being closed.
    pub message_id: MessageId,
}

/// Carries an encrypted reasoning blob. Carried by `REASONING_ENCRYPTED_VALUE`.
#[derive(Clone, Debug, PartialEq, Default)]
pub struct ReasoningEncryptedValueEvent {
    /// Timestamp, raw provider event and subagent attribution.
    pub base: BaseEvent,
    /// What the blob is attached to.
    pub subtype: ReasoningEncryptedValueSubtype,
    /// The id of the message or call it is attached to.
    pub entity_id: String,
    /// The opaque blob.
    pub encrypted_value: String,
}

/// Starts a subagent invocation. Carried by `SUBAGENT_STARTED`.
#[derive(Clone, Debug, PartialEq, Default)]
pub struct SubagentStartedEvent {
    /// Timestamp, raw provider event and subagent attribution.
    pub base: BaseEvent,
    /// The subagent's run.
    pub subagent_run_id: RunId,
    /// The subagent's name.
    pub name: String,
}

/// Finishes a subagent invocation. Carried by `SUBAGENT_FINISHED`.
#[derive(Clone, Debug, PartialEq, Default)]
pub struct SubagentFinishedEvent {
    /// Timestamp, raw provider event and subagent attribution.
    pub base: BaseEvent,
    /// The subagent's run.
    pub subagent_run_id: RunId,
}

/// Fails a subagent invocation. Carried by `SUBAGENT_ERROR`.
#[derive(Clone, Debug, PartialEq, Default)]
pub struct SubagentErrorEvent {
    /// Timestamp, raw provider event and subagent attribution.
    pub base: BaseEvent,
    /// The subagent's run.
    pub subagent_run_id: RunId,
    /// What went wrong.
    pub message: String,
}

/// The `type` discriminator of an [`Event`], on its own.
#[derive(Clone, Copy, Debug, PartialEq, Eq, Structural, Hash)]
pub enum EventType {
    /// `TEXT_MESSAGE_START`.
    TextMessageStart,
    /// `TEXT_MESSAGE_CONTENT`.
    TextMessageContent,
    /// `TEXT_MESSAGE_END`.
    TextMessageEnd,
    /// `TEXT_MESSAGE_CHUNK`.
    TextMessageChunk,
    /// `TOOL_CALL_START`.
    ToolCallStart,
    /// `TOOL_CALL_ARGS`.
    ToolCallArgs,
    /// `TOOL_CALL_END`.
    ToolCallEnd,
    /// `TOOL_CALL_CHUNK`.
    ToolCallChunk,
    /// `TOOL_CALL_RESULT`.
    ToolCallResult,
    /// `THINKING_START`.
    ThinkingStart,
    /// `THINKING_END`.
    ThinkingEnd,
    /// `THINKING_TEXT_MESSAGE_START`.
    ThinkingTextMessageStart,
    /// `THINKING_TEXT_MESSAGE_CONTENT`.
    ThinkingTextMessageContent,
    /// `THINKING_TEXT_MESSAGE_END`.
    ThinkingTextMessageEnd,
    /// `STATE_SNAPSHOT`.
    StateSnapshot,
    /// `STATE_DELTA`.
    StateDelta,
    /// `MESSAGES_SNAPSHOT`.
    MessagesSnapshot,
    /// `ACTIVITY_SNAPSHOT`.
    ActivitySnapshot,
    /// `ACTIVITY_DELTA`.
    ActivityDelta,
    /// `RAW`.
    Raw,
    /// `CUSTOM`.
    Custom,
    /// `RUN_STARTED`.
    RunStarted,
    /// `RUN_FINISHED`.
    RunFinished,
    /// `RUN_ERROR`.
    RunError,
    /// `STEP_STARTED`.
    StepStarted,
    /// `STEP_FINISHED`.
    StepFinished,
    /// `REASONING_START`.
    ReasoningStart,
    /// `REASONING_MESSAGE_START`.
    ReasoningMessageStart,
    /// `REASONING_MESSAGE_CONTENT`.
    ReasoningMessageContent,
    /// `REASONING_MESSAGE_END`.
    ReasoningMessageEnd,
    /// `REASONING_MESSAGE_CHUNK`.
    ReasoningMessageChunk,
    /// `REASONING_END`.
    ReasoningEnd,
    /// `REASONING_ENCRYPTED_VALUE`.
    ReasoningEncryptedValue,
    /// `SUBAGENT_STARTED`.
    SubagentStarted,
    /// `SUBAGENT_FINISHED`.
    SubagentFinished,
    /// `SUBAGENT_ERROR`.
    SubagentError,
}

impl EventType {
    /// The wire string for this type.
    pub open spec fn wire_name(self) -> Seq<char> {
        match self {
            EventType::TextMessageStart => "TEXT_MESSAGE_START"@,
            EventType::TextMessageContent => "TEXT_MESSAGE_CONTENT"@,
            EventType::TextMessageEnd => "TEXT_MESSAGE_END"@,
            EventType::TextMessageChunk => "TEXT_MESSAGE_CHUNK"@,
            EventType::ToolCallStart => "TOOL_CALL_START"@,
            EventType::ToolCallArgs => "TOOL_CALL_ARGS"@,
            EventType::ToolCallEnd => "TOOL_CALL_END"@,
            EventType::ToolCallChunk => "TOOL_CALL_CHUNK"@,
            EventType::ToolCallResult => "TOOL_CALL_RESULT"@,
            EventType::ThinkingStart => "THINKING_START"@,
            EventType::ThinkingEnd => "THINKING_END"@,
            EventType::ThinkingTextMessageStart => "THINKING_TEXT_MESSAGE_START"@,
            EventType::ThinkingTextMessageContent => "THINKING_TEXT_MESSAGE_CONTENT"@,
            EventType::ThinkingTextMessageEnd => "THINKING_TEXT_MESSAGE_END"@,
            EventType::StateSnapshot => "STATE_SNAPSHOT"@,
            EventType::StateDelta => "STATE_DELTA"@,
            EventType::MessagesSnapshot => "MESSAGES_SNAPSHOT"@,
            EventType::ActivitySnapshot => "ACTIVITY_SNAPSHOT"@,
            EventType::ActivityDelta => "ACTIVITY_DELTA"@,
            EventType::Raw => "RAW"@,
            EventType::Custom => "CUSTOM"@,
            EventType::RunStarted => "RUN_STARTED"@,
            EventType::RunFinished => "RUN_FINISHED"@,
            EventType::RunError => "RUN_ERROR"@,
            EventType::StepStarted => "STEP_STARTED"@,
            EventType::StepFinished => "STEP_FINISHED"@,
            EventType::ReasoningStart => "REASONING_START"@,
            EventType::ReasoningMessageStart => "REASONING_MESSAGE_START"@,
            EventType::ReasoningMessageContent => "REASONING_MESSAGE_CONTENT"@,
            EventType::ReasoningMessageEnd => "REASONING_MESSAGE_END"@,
            EventType::ReasoningMessageChunk => "REASONING_MESSAGE_CHUNK"@,
            EventType::ReasoningEnd => "REASONING_END"@,
            EventType::ReasoningEncryptedValue => "REASONING_ENCRYPTED_VALUE"@,
            EventType::SubagentStarted => "SUBAGENT_STARTED"@,
            EventType::SubagentFinished => "SUBAGENT_FINISHED"@,
            EventType::SubagentError => "SUBAGENT_ERROR"@,
        }
    }

    /// The wire string for this type.
    pub fn as_str(&self) -> (name: &'static str)
        ensures
            name@ == self.wire_name(),
    {
        match self {
            EventType::TextMessageStart => "TEXT_MESSAGE_START",
            EventType::TextMessageContent => "TEXT_MESSAGE_CONTENT",
            EventType::TextMessageEnd => "TEXT_MESSAGE_END",
            EventType::TextMessageChunk => "TEXT_MESSAGE_CHUNK",
            EventType::ToolCallStart => "TOOL_CALL_START",
            EventType::ToolCallArgs => "TOOL_CALL_ARGS",
            EventType::ToolCallEnd => "TOOL_CALL_END",
            EventType::ToolCallChunk => "TOOL_CALL_CHUNK",
            EventType::ToolCallResult => "TOOL_CALL_RESULT",
            EventType::ThinkingStart => "THINKING_START",
            EventType::ThinkingEnd => "THINKING_END",
            EventType::ThinkingTextMessageStart => "THINKING_TEXT_MESSAGE_START",
            EventType::ThinkingTextMessageContent => "THINKING_TEXT_MESSAGE_CONTENT",
            EventType::ThinkingTextMessageEnd => "THINKING_TEXT_MESSAGE_END",
            EventType::StateSnapshot => "STATE_SNAPSHOT",
            EventType::StateDelta => "STATE_DELTA",
            EventType::MessagesSnapshot => "MESSAGES_SNAPSHOT",
            EventType::ActivitySnapshot => "ACTIVITY_SNAPSHOT",
            EventType::ActivityDelta => "ACTIVITY_DELTA",
            EventType::Raw => "RAW",
            EventType::Custom => "CUSTOM",
            EventType::RunStarted => "RUN_STARTED",
            EventType::RunFinished => "RUN_FINISHED",
            EventType::RunError => "RUN_ERROR",
            EventType::StepStarted => "STEP_STARTED",
            EventType::StepFinished => "STEP_FINISHED",
            EventType::ReasoningStart => "REASONING_START",
            EventType::ReasoningMessageStart => "REASONING_MESSAGE_START",
            EventType::ReasoningMessageContent => "REASONING_MESSAGE_CONTENT",
            EventType::ReasoningMessageEnd => "REASONING_MESSAGE_END",
            EventType::ReasoningMessageChunk => "REASONING_MESSAGE_CHUNK",
            EventType::ReasoningEnd => "REASONING_END",
            EventType::ReasoningEncryptedValue => "REASONING_ENCRYPTED_VALUE",
            EventType::SubagentStarted => "SUBAGENT_STARTED",
            EventType::SubagentFinished => "SUBAGENT_FINISHED",
            EventType::SubagentError => "SUBAGENT_ERROR",
        }
    }

    /// Every event type the protocol defines, in upstream order.
    pub fn all() -> (types: Vec<EventType>)
        ensures
            forall|t: EventType| types@.contains(t),
    {
        let mut types: Vec<EventType> = Vec::new();
        types.push(EventType::TextMessageStart);
        types.push(EventType::TextMessageContent);
        types.push(EventType::TextMessageEnd);
        types.push(EventType::TextMessageChunk);
        types.push(EventType::ToolCallStart);
        types.push(EventType::ToolCallArgs);
        types.push(EventType::ToolCallEnd);
        types.push(EventType::ToolCallChunk);
        types.push(EventType::ToolCallResult);
        types.push(EventType::ThinkingStart);
        types.push(EventType::ThinkingEnd);
        types.push(EventType::ThinkingTextMessageStart);
        types.push(EventType::ThinkingTextMessageContent);
        types.push(EventType::ThinkingTextMessageEnd);
        types.push(EventType::StateSnapshot);
        types.push(EventType::StateDelta);
        types.push(EventType::MessagesSnapshot);
        types.push(EventType::ActivitySnapshot);
        types.push(EventType::ActivityDelta);
        types.push(EventType::Raw);
        types.push(EventType::Custom);
        types.push(EventType::RunStarted);
        types.push(EventType::RunFinished);
        types.push(EventType::RunError);
        types.push(EventType::StepStarted);
        types.push(EventType::StepFinished);
        types.push(EventType::ReasoningStart);
        types.push(EventType::ReasoningMessageStart);
        types.push(EventType::ReasoningMessageContent);
        types.push(EventType::ReasoningMessageEnd);
        types.push(EventType::ReasoningMessageChunk);
        types.push(EventType::ReasoningEnd);
        types.push(EventType::ReasoningEncryptedValue);
        types.push(EventType::SubagentStarted);
        types.push(EventType::SubagentFinished);
        types.push(EventType::SubagentError);
        proof {
            assert forall|t: EventType| types@.contains(t) by {
                match t {
                    EventType::TextMessageStart => assert(types@[0] == t),
                    EventType::TextMessageContent => assert(types@[1] == t),
                    EventType::TextMessageEnd => assert(types@[2] == t),
                    EventType::TextMessageChunk => assert(types@[3] == t),
                    EventType::ToolCallStart => assert(types@[4] == t),
                    EventType::ToolCallArgs => assert(types@[5] == t),
                    EventType::ToolCallEnd => assert(types@[6] == t),
                    EventType::ToolCallChunk => assert(types@[7] == t),
                    EventType::ToolCallResult => assert(types@[8] == t),
                    EventType::ThinkingStart => assert(types@[9] == t),
                    EventType::ThinkingEnd => assert(types@[10] == t),
                    EventType::ThinkingTextMessageStart => assert(types@[11] == t),
                    EventType::ThinkingTextMessageContent => assert(types@[12] == t),
                    EventType::ThinkingTextMessageEnd => assert(types@[13] == t),
                    EventType::StateSnapshot => assert(types@[14] == t),
                    EventType::StateDelta => assert(types@[15] == t),
                    EventType::MessagesSnapshot => assert(types@[16] == t),
                    EventType::ActivitySnapshot => assert(types@[17] == t),
                    EventType::ActivityDelta => assert(types@[18] == t),
                    EventType::Raw => assert(types@[19] == t),
                    EventType::Custom => assert(types@[20] == t),
                    EventType::RunStarted => assert(types@[21] == t),
                    EventType::RunFinished => assert(types@[22] == t),
                    EventType::RunError => assert(types@[23] == t),
                    EventType::StepStarted => assert(types@[24] == t),
                    EventType::StepFinished => assert(types@[25] == t),
                    EventType::ReasoningStart => assert(types@[26] == t),
                    EventType::ReasoningMessageStart => assert(types@[27] == t),
                    EventType::ReasoningMessageContent => assert(types@[28] == t),
                    EventType::ReasoningMessageEnd => assert(types@[29] == t),
                    EventType::ReasoningMessageChunk => assert(types@[30] == t),
                    EventType::ReasoningEnd => assert(types@[31] == t),
                    EventType::ReasoningEncryptedValue => assert(types@[32] == t),
                    EventType::SubagentStarted => assert(types@[33] == t),
                    EventType::SubagentFinished => assert(types@[34] == t),
                    EventType::SubagentError => assert(types@[35] == t),
                }
            }
        }
        types
    }

    /// The type whose wire string is `name`, if there is one.
    pub fn parse(name: &str) -> (found: Option<EventType>)
        ensures
            found matches Some(t) ==> t.wire_name() == name@,
            found is None ==> forall|t: EventType| t.wire_name() != name@,
    {
        let types = EventType::all();
        let mut i: usize = 0;
        while i < types.len()
            invariant
                i <= types@.len(),
                forall|t: EventType| types@.contains(t),
                forall|j: int| 0 <= j < i ==> types@[j].wire_name() != name@,
            decreases types@.len() - i,
        {
            let t = types[i];
            if crate::ids::text_eq(t.as_str(), name) {
                return Some(t);
            }
            i = i + 1;
        }
        proof {
            assert forall|t: EventType| t.wire_name() != name@ by {
                assert(types@.contains(t));
                let j = choose|j: int| 0 <= j < types@.len() && types@[j] == t;
                assert(types@[j].wire_name() != name@);
            }
        }
        None
    }

    /// Whether events of this type are deprecated in favour of a
    /// `REASONING_*` one.
    pub open spec fn deprecated(self) -> bool {
        self == EventType::ThinkingStart || self == EventType::ThinkingEnd || self == EventType::ThinkingTextMessageStart || self == EventType::ThinkingTextMessageContent || self == EventType::ThinkingTextMessageEnd
    }
}

/// One event in a stream.
#[derive(Clone, Debug, PartialEq)]
pub enum Event {
    /// Opens a text message.
    TextMessageStart(TextMessageStartEvent),
    /// Appends to a text message.
    TextMessageContent(TextMessageContentEvent),
    /// Closes a text message.
    TextMessageEnd(TextMessageEndEvent),
    /// A whole text update in one event.
    TextMessageChunk(TextMessageChunkEvent),
    /// Opens a tool call.
    ToolCallStart(ToolCallStartEvent),
    /// Appends tool-call arguments.
    ToolCallArgs(ToolCallArgsEvent),
    /// Closes a tool call.
    ToolCallEnd(ToolCallEndEvent),
    /// A whole tool call update in one event.
    ToolCallChunk(ToolCallChunkEvent),
    /// A tool call's result.
    ToolCallResult(ToolCallResultEvent),
    /// Opens a thinking block (deprecated).
    ThinkingStart(ThinkingStartEvent),
    /// Closes a thinking block (deprecated).
    ThinkingEnd(ThinkingEndEvent),
    /// Opens a thinking message (deprecated).
    ThinkingTextMessageStart(ThinkingTextMessageStartEvent),
    /// Appends thinking text (deprecated).
    ThinkingTextMessageContent(ThinkingTextMessageContentEvent),
    /// Closes a thinking message (deprecated).
    ThinkingTextMessageEnd(ThinkingTextMessageEndEvent),
    /// Replaces the shared state.
    StateSnapshot(StateSnapshotEvent),
    /// Patches the shared state.
    StateDelta(StateDeltaEvent),
    /// Replaces the message history.
    MessagesSnapshot(MessagesSnapshotEvent),
    /// Publishes an activity.
    ActivitySnapshot(ActivitySnapshotEvent),
    /// Patches an activity.
    ActivityDelta(ActivityDeltaEvent),
    /// Forwards a provider event.
    Raw(RawEvent),
    /// An application-defined event.
    Custom(CustomEvent),
    /// Starts a run.
    RunStarted(RunStartedEvent),
    /// Finishes or pauses a run.
    RunFinished(RunFinishedEvent),
    /// Fails a run.
    RunError(RunErrorEvent),
    /// Starts a step.
    StepStarted(StepStartedEvent),
    /// Finishes a step.
    StepFinished(StepFinishedEvent),
    /// Opens a reasoning block.
    ReasoningStart(ReasoningStartEvent),
    /// Opens a reasoning message.
    ReasoningMessageStart(ReasoningMessageStartEvent),
    /// Appends reasoning text.
    ReasoningMessageContent(ReasoningMessageContentEvent),
    /// Closes a reasoning message.
    ReasoningMessageEnd(ReasoningMessageEndEvent),
    /// A whole reasoning update in one event.
    ReasoningMessageChunk(ReasoningMessageChunkEvent),
    /// Closes a reasoning block.
    ReasoningEnd(ReasoningEndEvent),
    /// Carries an encrypted reasoning blob.
    ReasoningEncryptedValue(ReasoningEncryptedValueEvent),
    /// Starts a subagent invocation.
    SubagentStarted(SubagentStartedEvent),
    /// Finishes a subagent invocation.
    SubagentFinished(SubagentFinishedEvent),
    /// Fails a subagent invocation.
    SubagentError(SubagentErrorEvent),
}

impl Event {
    /// The discriminator of this event.
    pub open spec fn kind(&self) -> EventType {
        match self {
            Event::TextMessageStart(_) => EventType::TextMessageStart,
            Event::TextMessageContent(_) => EventType::TextMessageContent,
            Event::TextMessageEnd(_) => EventType::TextMessageEnd,
            Event::TextMessageChunk(_) => EventType::TextMessageChunk,
            Event::ToolCallStart(_) => EventType::ToolCallStart,
            Event::ToolCallArgs(_) => EventType::ToolCallArgs,
            Event::ToolCallEnd(_) => EventType::ToolCallEnd,
            Event::ToolCallChunk(_) => EventType::ToolCallChunk,
            Event::ToolCallResult(_) => EventType::ToolCallResult,
            Event::ThinkingStart(_) => EventType::ThinkingStart,
            Event::ThinkingEnd(_) => EventType::ThinkingEnd,
            Event::ThinkingTextMessageStart(_) => EventType::ThinkingTextMessageStart,
            Event::ThinkingTextMessageContent(_) => EventType::ThinkingTextMessageContent,
            Event::ThinkingTextMessageEnd(_) => EventType::ThinkingTextMessageEnd,
            Event::StateSnapshot(_) => EventType::StateSnapshot,
            Event::StateDelta(_) => EventType::StateDelta,
            Event::MessagesSnapshot(_) => EventType::MessagesSnapshot,
            Event::ActivitySnapshot(_) => EventType::ActivitySnapshot,
            Event::ActivityDelta(_) => EventType::ActivityDelta,
            Event::Raw(_) => EventType::Raw,
            Event::Custom(_) => EventType::Custom,
            Event::RunStarted(_) => EventType::RunStarted,
            Event::RunFinished(_) => EventType::RunFinished,
            Event::RunError(_) => EventType::RunError,
            Event::StepStarted(_) => EventType::StepStarted,
            Event::StepFinished(_) => EventType::StepFinished,
            Event::ReasoningStart(_) => EventType::ReasoningStart,
            Event::ReasoningMessageStart(_) => EventType::ReasoningMessageStart,
            Event::ReasoningMessageContent(_) => EventType::ReasoningMessageContent,
            Event::ReasoningMessageEnd(_) => EventType::ReasoningMessageEnd,
            Event::ReasoningMessageChunk(_) => EventType::ReasoningMessageChunk,
            Event::ReasoningEnd(_) => EventType::ReasoningEnd,
            Event::ReasoningEncryptedValue(_) => EventType::ReasoningEncryptedValue,
            Event::SubagentStarted(_) => EventType::SubagentStarted,
            Event::SubagentFinished(_) => EventType::SubagentFinished,
            Event::SubagentError(_) => EventType::SubagentError,
        }
    }

    /// The base fields, whatever the variant.
    pub open spec fn base_of(&self) -> BaseEvent {
        match self {
            Event::TextMessageStart(p) => p.base,
            Event::TextMessageContent(p) => p.base,
            Event::TextMessageEnd(p) => p.base,
            Event::TextMessageChunk(p) => p.base,
            Event::ToolCallStart(p) => p.base,
            Event::ToolCallArgs(p) => p.base,
            Event::ToolCallEnd(p) => p.base,
            Event::ToolCallChunk(p) => p.base,
            Event::ToolCallResult(p) => p.base,
            Event::ThinkingStart(p) => p.base,
            Event::ThinkingEnd(p) => p.base,
            Event::ThinkingTextMessageStart(p) => p.base,
            Event::ThinkingTextMessageContent(p) => p.base,
            Event::ThinkingTextMessageEnd(p) => p.base,
            Event::StateSnapshot(p) => p.base,
            Event::StateDelta(p) => p.base,
            Event::MessagesSnapshot(p) => p.base,
            Event::ActivitySnapshot(p) => p.base,
            Event::ActivityDelta(p) => p.base,
            Event::Raw(p) => p.base,
            Event::Custom(p) => p.base,
            Event::RunStarted(p) => p.base,
            Event::RunFinished(p) => p.base,
            Event::RunError(p) => p.base,
            Event::StepStarted(p) => p.base,
            Event::StepFinished(p) => p.base,
            Event::ReasoningStart(p) => p.base,
            Event::ReasoningMessageStart(p) => p.base,
            Event::ReasoningMessageContent(p) => p.base,
            Event::ReasoningMessageEnd(p) => p.base,
            Event::ReasoningMessageChunk(p) => p.base,
            Event::ReasoningEnd(p) => p.base,
            Event::ReasoningEncryptedValue(p) => p.base,
            Event::SubagentStarted(p) => p.base,
            Event::SubagentFinished(p) => p.base,
            Event::SubagentError(p) => p.base,
        }
    }

    /// The same event with its base fields replaced.
    pub open spec fn with_base(self, base: BaseEvent) -> Event {
        match self {
            Event::TextMessageStart(p) => Event::TextMessageStart(TextMessageStartEvent { base, ..p }),
            Event::TextMessageContent(p) => Event::TextMessageContent(TextMessageContentEvent { base, ..p }),
            Event::TextMessageEnd(p) => Event::TextMessageEnd(TextMessageEndEvent { base, ..p }),
            Event::TextMessageChunk(p) => Event::TextMessageChunk(TextMessageChunkEvent { base, ..p }),
            Event::ToolCallStart(p) => Event::ToolCallStart(ToolCallStartEvent { base, ..p }),
            Event::ToolCallArgs(p) => Event::ToolCallArgs(ToolCallArgsEvent { base, ..p }),
            Event::ToolCallEnd(p) => Event::ToolCallEnd(ToolCallEndEvent { base, ..p }),
            Event::ToolCallChunk(p) => Event::ToolCallChunk(ToolCallChunkEvent { base, ..p }),
            Event::ToolCallResult(p) => Event::ToolCallResult(ToolCallResultEvent { base, ..p }),
            Event::ThinkingStart(p) => Event::ThinkingStart(ThinkingStartEvent { base, ..p }),
            Event::ThinkingEnd(p) => Event::ThinkingEnd(ThinkingEndEvent { base, ..p }),
            Event::ThinkingTextMessageStart(p) => Event::ThinkingTextMessageStart(ThinkingTextMessageStartEvent { base, ..p }),
            Event::ThinkingTextMessageContent(p) => Event::ThinkingTextMessageContent(ThinkingTextMessageContentEvent { base, ..p }),
            Event::ThinkingTextMessageEnd(p) => Event::ThinkingTextMessageEnd(ThinkingTextMessageEndEvent { base, ..p }),
            Event::StateSnapshot(p) => Event::StateSnapshot(StateSnapshotEvent { base, ..p }),
            Event::StateDelta(p) => Event::StateDelta(StateDeltaEvent { base, ..p }),
            Event::MessagesSnapshot(p) => Event::MessagesSnapshot(MessagesSnapshotEvent { base, ..p }),
            Event::ActivitySnapshot(p) => Event::ActivitySnapshot(ActivitySnapshotEvent { base, ..p }),
            Event::ActivityDelta(p) => Event::ActivityDelta(ActivityDeltaEvent { base, ..p }),
            Event::Raw(p) => Event::Raw(RawEvent { base, ..p }),
            Event::Custom(p) => Event::Custom(CustomEvent { base, ..p }),
            Event::RunStarted(p) => Event::RunStarted(RunStartedEvent { base, ..p }),
            Event::RunFinished(p) => Event::RunFinished(RunFinishedEvent { base, ..p }),
            Event::RunError(p) => Event::RunError(RunErrorEvent { base, ..p }),
            Event::StepStarted(p) => Event::StepStarted(StepStartedEvent { base, ..p }),
            Event::StepFinished(p) => Event::StepFinished(StepFinishedEvent { base, ..p }),
            Event::ReasoningStart(p) => Event::ReasoningStart(ReasoningStartEvent { base, ..p }),
            Event::ReasoningMessageStart(p) => Event::ReasoningMessageStart(ReasoningMessageStartEvent { base, ..p }),
            Event::ReasoningMessageContent(p) => Event::ReasoningMessageContent(ReasoningMessageContentEvent { base, ..p }),
            Event::ReasoningMessageEnd(p) => Event::ReasoningMessageEnd(ReasoningMessageEndEvent { base, ..p }),
            Event::ReasoningMessageChunk(p) => Event::ReasoningMessageChunk(ReasoningMessageChunkEvent { base, ..p }),
            Event::ReasoningEnd(p) => Event::ReasoningEnd(ReasoningEndEvent { base, ..p }),
            Event::ReasoningEncryptedValue(p) => Event::ReasoningEncryptedValue(ReasoningEncryptedValueEvent { base, ..p }),
            Event::SubagentStarted(p) => Event::SubagentStarted(SubagentStartedEvent { base, ..p }),
            Event::SubagentFinished(p) => Event::SubagentFinished(SubagentFinishedEvent { base, ..p }),
            Event::SubagentError(p) => Event::SubagentError(SubagentErrorEvent { base, ..p }),
        }
    }

    /// The discriminator of this event.
    pub fn event_type(&self) -> (kind: EventType)
        ensures
            kind == self.kind(),
    {
        match self {
            Event::TextMessageStart(_) => EventType::TextMessageStart,
            Event::TextMessageContent(_) => EventType::TextMessageContent,
            Event::TextMessageEnd(_) => EventType::TextMessageEnd,
            Event::TextMessageChunk(_) => EventType::TextMessageChunk,
            Event::ToolCallStart(_) => EventType::ToolCallStart,
            Event::ToolCallArgs(_) => EventType::ToolCallArgs,
            Event::ToolCallEnd(_) => EventType::ToolCallEnd,
            Event::ToolCallChunk(_) => EventType::ToolCallChunk,
            Event::ToolCallResult(_) => EventType::ToolCallResult,
            Event::ThinkingStart(_) => EventType::ThinkingStart,
            Event::ThinkingEnd(_) => EventType::ThinkingEnd,
            Event::ThinkingTextMessageStart(_) => EventType::ThinkingTextMessageStart,
            Event::ThinkingTextMessageContent(_) => EventType::ThinkingTextMessageContent,
            Event::ThinkingTextMessageEnd(_) => EventType::ThinkingTextMessageEnd,
            Event::StateSnapshot(_) => EventType::StateSnapshot,
            Event::StateDelta(_) => EventType::StateDelta,
            Event::MessagesSnapshot(_) => EventType::MessagesSnapshot,
            Event::ActivitySnapshot(_) => EventType::ActivitySnapshot,
            Event::ActivityDelta(_) => EventType::ActivityDelta,
            Event::Raw(_) => EventType::Raw,
            Event::Custom(_) => EventType::Custom,
            Event::RunStarted(_) => EventType::RunStarted,
            Event::RunFinished(_) => EventType::RunFinished,
            Event::RunError(_) => EventType::RunError,
            Event::StepStarted(_) => EventType::StepStarted,
            Event::StepFinished(_) => EventType::StepFinished,
            Event::ReasoningStart(_) => EventType::ReasoningStart,
            Event::ReasoningMessageStart(_) => EventType::ReasoningMessageStart,
            Event::ReasoningMessageContent(_) => EventType::ReasoningMessageContent,
            Event::ReasoningMessageEnd(_) => EventType::ReasoningMessageEnd,
            Event::ReasoningMessageChunk(_) => EventType::ReasoningMessageChunk,
            Event::ReasoningEnd(_) => EventType::ReasoningEnd,
            Event::ReasoningEncryptedValue(_) => EventType::ReasoningEncryptedValue,
            Event::SubagentStarted(_) => EventType::SubagentStarted,
            Event::SubagentFinished(_) => EventType::SubagentFinished,
            Event::SubagentError(_) => EventType::SubagentError,
        }
    }

    /// The timestamp, raw-event and attribution fields, whatever the variant.
    pub fn base(&self) -> (base: &BaseEvent)
        ensures
            *base == self.base_of(),
    {
        match self {
            Event::TextMessageStart(p) => &p.base,
            Event::TextMessageContent(p) => &p.base,
            Event::TextMessageEnd(p) => &p.base,
            Event::TextMessageChunk(p) => &p.base,
            Event::ToolCallStart(p) => &p.base,
            Event::ToolCallArgs(p) => &p.base,
            Event::ToolCallEnd(p) => &p.base,
            Event::ToolCallChunk(p) => &p.base,
            Event::ToolCallResult(p) => &p.base,
            Event::ThinkingStart(p) => &p.base,
            Event::ThinkingEnd(p) => &p.base,
            Event::ThinkingTextMessageStart(p) => &p.base,
            Event::ThinkingTextMessageContent(p) => &p.base,
            Event::ThinkingTextMessageEnd(p) => &p.base,
            Event::StateSnapshot(p) => &p.base,
            Event::StateDelta(p) => &p.base,
            Event::MessagesSnapshot(p) => &p.base,
            Event::ActivitySnapshot(p) => &p.base,
            Event::ActivityDelta(p) => &p.base,
            Event::Raw(p) => &p.base,
            Event::Custom(p) => &p.base,
            Event::RunStarted(p) => &p.base,
            Event::RunFinished(p) => &p.base,
            Event::RunError(p) => &p.base,
            Event::StepStarted(p) => &p.base,
            Event::StepFinished(p) => &p.base,
            Event::ReasoningStart(p) => &p.base,
            Event::ReasoningMessageStart(p) => &p.base,
            Event::ReasoningMessageContent(p) => &p.base,
            Event::ReasoningMessageEnd(p) => &p.base,
            Event::ReasoningMessageChunk(p) => &p.base,
            Event::ReasoningEnd(p) => &p.base,
            Event::ReasoningEncryptedValue(p) => &p.base,
            Event::SubagentStarted(p) => &p.base,
            Event::SubagentFinished(p) => &p.base,
            Event::SubagentError(p) => &p.base,
        }
    }

    /// Replaces the base fields, keeping the variant and its own fields.
    pub fn set_base(&mut self, base: BaseEvent)
        ensures
            *final(self) == old(self).with_base(base),
    {
        match self {
            Event::TextMessageStart(p) => p.base = base,
            Event::TextMessageContent(p) => p.base = base,
            Event::TextMessageEnd(p) => p.base = base,
            Event::TextMessageChunk(p) => p.base = base,
            Event::ToolCallStart(p) => p.base = base,
            Event::ToolCallArgs(p) => p.base = base,
            Event::ToolCallEnd(p) => p.base = base,
            Event::ToolCallChunk(p) => p.base = base,
            Event::ToolCallResult(p) => p.base = base,
            Event::ThinkingStart(p) => p.base = base,
            Event::ThinkingEnd(p) => p.base = base,
            Event::ThinkingTextMessageStart(p) => p.base = base,
            Event::ThinkingTextMessageContent(p) => p.base = base,
            Event::ThinkingTextMessageEnd(p) => p.base = base,
            Event::StateSnapshot(p) => p.base = base,
            Event::StateDelta(p) => p.base = base,
            Event::MessagesSnapshot(p) => p.base = base,
            Event::ActivitySnapshot(p) => p.base = base,
            Event::ActivityDelta(p) => p.base = base,
            Event::Raw(p) => p.base = base,
            Event::Custom(p) => p.base = base,
            Event::RunStarted(p) => p.base = base,
            Event::RunFinished(p) => p.base = base,
            Event::RunError(p) => p.base = base,
            Event::StepStarted(p) => p.base = base,
            Event::StepFinished(p) => p.base = base,
            Event::ReasoningStart(p) => p.base = base,
            Event::ReasoningMessageStart(p) => p.base = base,
            Event::ReasoningMessageContent(p) => p.base = base,
            Event::ReasoningMessageEnd(p) => p.base = base,
            Event::ReasoningMessageChunk(p) => p.base = base,
            Event::ReasoningEnd(p) => p.base = base,
            Event::ReasoningEncryptedValue(p) => p.base = base,
            Event::SubagentStarted(p) => p.base = base,
            Event::SubagentFinished(p) => p.base = base,
            Event::SubagentError(p) => p.base = base,
        }
    }

    /// Stamps the event with a millisecond Unix timestamp.
    pub fn with_timestamp(self, timestamp: i64) -> (stamped: Event)
        ensures
            stamped == self.with_base(BaseEvent { timestamp: Some(timestamp), ..self.base_of() }),
            stamped.kind() == self.kind(),
            stamped.base_of() == (BaseEvent { timestamp: Some(timestamp), ..self.base_of() }),
    {
        let mut event = self;
        let mut base = event.base().clone();
        base.timestamp = Some(timestamp);
        event.set_base(base);
        event
    }

    /// Attaches the provider's own event behind this one.
    pub fn with_raw_event(self, raw_event: serde_json::Value) -> (stamped: Event)
        ensures
            stamped == self.with_base(BaseEvent { raw_event: Some(raw_event), ..self.base_of() }),
    {
        let mut event = self;
        let mut base = event.base().clone();
        base.raw_event = Some(raw_event);
        event.set_base(base);
        event
    }

    /// Attributes the event to a subagent run.
    pub fn with_subagent_run_id(self, run: &str) -> (tagged: Event)
        ensures
            tagged.kind() == self.kind(),
            tagged.base_of().subagent_run_id matches Some(r) && r@ == run@,
            tagged.base_of().timestamp == self.base_of().timestamp,
            tagged.base_of().raw_event == self.base_of().raw_event,
            exists|b: BaseEvent| tagged == self.with_base(b),
    {
        let mut event = self;
        let mut base = event.base().clone();
        base.subagent_run_id = Some(RunId::new(run));
        proof {
            assert(event.with_base(base) == self.with_base(base));
        }
        event.set_base(base);
        event
    }

    /// The subagent run that produced the event, if one did.
    pub fn subagent_run_id(&self) -> (run: Option<&RunId>)
        ensures
            run == match self.base_of().subagent_run_id {
                Some(r) => Some(&r),
                None => None::<&RunId>,
            },
    {
        self.base().subagent_run_id.as_ref()
    }

    /// Whether a subagent run produced the event.
    pub fn is_attributed(&self) -> (tagged: bool)
        ensures
            tagged == (self.base_of().subagent_run_id is Some),
    {
        self.base().subagent_run_id.is_some()
    }

    /// Removes the subagent attribution, leaving everything else as it was.
    pub fn clear_subagent_run_id(&mut self)
        ensures
            *final(self) == old(self).with_base(BaseEvent { subagent_run_id: None, ..old(self).base_of() }),
    {
        let mut base = self.base().clone();
        base.subagent_run_id = None;
        self.set_base(base);
    }

    /// Whether this event's type is deprecated in favour of a `REASONING_*`
    /// one.
    pub fn is_deprecated(&self) -> (deprecated: bool)
        ensures
            deprecated == self.kind().deprecated(),
    {
        match self {
            Event::ThinkingStart(_) | Event::ThinkingEnd(_) | Event::ThinkingTextMessageStart(_) | Event::ThinkingTextMessageContent(_) | Event::ThinkingTextMessageEnd(_) => true,
            _ => false,
        }
    }
}

} // verus!
