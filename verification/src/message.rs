//! The message union and its multimodal content parts.

use vstd::prelude::*;

use crate::ids::{MessageId, RunId, ToolCallId};

verus! {

/// Every role the protocol defines.
#[derive(Clone, Copy, Debug, PartialEq, Eq, Structural, Hash)]
pub enum Role {
    /// Out-of-band instructions from the application developer.
    Developer,
    /// System prompt.
    System,
    /// Model output.
    Assistant,
    /// End-user input.
    User,
    /// The result of a tool call.
    Tool,
    /// A structured progress update rendered by the client.
    Activity,
    /// Model reasoning.
    Reasoning,
}

impl Role {
    /// The role string as it appears on the wire.
    pub open spec fn wire_name(self) -> Seq<char> {
        match self {
            Role::Developer => "developer"@,
            Role::System => "system"@,
            Role::Assistant => "assistant"@,
            Role::User => "user"@,
            Role::Tool => "tool"@,
            Role::Activity => "activity"@,
            Role::Reasoning => "reasoning"@,
        }
    }

    /// The role string as it appears on the wire.
    pub fn as_str(&self) -> (name: &'static str)
        ensures
            name@ == self.wire_name(),
    {
        match self {
            Role::Developer => "developer",
            Role::System => "system",
            Role::Assistant => "assistant",
            Role::User => "user",
            Role::Tool => "tool",
            Role::Activity => "activity",
            Role::Reasoning => "reasoning",
        }
    }

    /// The role as text, as it is displayed: its wire name.
    pub fn to_string(&self) -> (text: String)
        ensures
            text@ == self.wire_name(),
    {
        self.as_str().to_owned()
    }
}

/// Where the bytes of a multimodal part live.
#[derive(Clone, Debug, PartialEq)]
pub enum InputContentSource {
    /// Inline data, typically base64.
    Data {
        /// The encoded payload.
        value: String,
        /// MIME type of the payload, for example `image/png`.
        mime_type: String,
    },
    /// A URL the consumer fetches itself.
    Url {
        /// The URL.
        value: String,
        /// MIME type, when the producer knows it.
        mime_type: Option<String>,
    },
}

/// A plain-text content part.
#[derive(Clone, Debug, Default, PartialEq)]
pub struct TextInputContent {
    /// The text.
    pub text: String,
}

/// An image, audio, video or document content part.
#[derive(Clone, Debug, PartialEq)]
pub struct MediaInputContent {
    /// Where the bytes are.
    pub source: InputContentSource,
    /// Producer-defined extras (dimensions, page counts, alt text, …).
    pub metadata: Option<serde_json::Value>,
}

impl MediaInputContent {
    /// Builds a media part from a source, with no metadata.
    pub fn new(source: InputContentSource) -> (part: Self)
        ensures
            part.source == source,
            part.metadata is None,
    {
        MediaInputContent { source, metadata: None }
    }
}

/// The legacy `binary` content part: at least one of `id`, `url` or `data`
/// should be set, which [`BinaryInputContent::has_payload`] checks.
#[derive(Clone, Debug, PartialEq)]
pub struct BinaryInputContent {
    /// MIME type of the payload.
    pub mime_type: String,
    /// Reference to a previously uploaded blob.
    pub id: Option<String>,
    /// URL to fetch the payload from.
    pub url: Option<String>,
    /// Inline payload, typically base64.
    pub data: Option<String>,
    /// The file name the content was uploaded under, for display.
    pub filename: Option<String>,
}

impl Default for BinaryInputContent {
    /// A part with an empty MIME type and nothing else set, so no payload.
    fn default() -> (content: Self)
        ensures
            content.mime_type@.len() == 0,
            content.id is None,
            content.url is None,
            content.data is None,
            content.filename is None,
    {
        BinaryInputContent { mime_type: String::new(), id: None, url: None, data: None, filename: None }
    }
}

impl BinaryInputContent {
    /// Whether the part carries a payload in any of the three accepted forms.
    pub fn has_payload(&self) -> (carries: bool)
        ensures
            carries == (self.id is Some || self.url is Some || self.data is Some),
    {
        self.id.is_some() || self.url.is_some() || self.data.is_some()
    }
}

/// One part of a multimodal user message.
#[derive(Clone, Debug, PartialEq)]
pub enum InputContent {
    /// Text.
    Text(TextInputContent),
    /// An image.
    Image(MediaInputContent),
    /// An audio clip.
    Audio(MediaInputContent),
    /// A video clip.
    Video(MediaInputContent),
    /// A document, for example a PDF.
    Document(MediaInputContent),
    /// The legacy catch-all binary part.
    Binary(BinaryInputContent),
}

impl InputContent {
    /// Builds a text part.
    pub fn text(text: &str) -> (part: Self)
        ensures
            part matches InputContent::Text(t) && t.text@ == text@,
    {
        InputContent::Text(TextInputContent { text: text.to_owned() })
    }
}

/// The body of a user message: either a bare string or an ordered list of
/// multimodal parts.
#[derive(Clone, Debug, PartialEq)]
pub enum UserContent {
    /// Plain text.
    Text(String),
    /// Multimodal parts.
    Parts(Vec<InputContent>),
}

impl Default for UserContent {
    fn default() -> (content: Self)
        ensures
            content matches UserContent::Text(t) && t@.len() == 0,
    {
        UserContent::Text(String::new())
    }
}

/// Out-of-band instructions from the application developer.
#[derive(Clone, Debug, Default, PartialEq)]
pub struct DeveloperMessage {
    /// Message id.
    pub id: MessageId,
    /// The instructions.
    pub content: String,
    /// Optional display name for the author.
    pub name: Option<String>,
    /// Opaque provider payload for zero-data-retention modes.
    pub encrypted_value: Option<String>,
    /// The subagent run that produced this message, when one did.
    pub subagent_run_id: Option<RunId>,
}

/// The system prompt.
#[derive(Clone, Debug, Default, PartialEq)]
pub struct SystemMessage {
    /// Message id.
    pub id: MessageId,
    /// The prompt.
    pub content: String,
    /// Optional display name for the author.
    pub name: Option<String>,
    /// Opaque provider payload for zero-data-retention modes.
    pub encrypted_value: Option<String>,
    /// The subagent run that produced this message, when one did.
    pub subagent_run_id: Option<RunId>,
}

/// The function a tool call invokes.
#[derive(Clone, Debug, Default, PartialEq)]
pub struct FunctionCall {
    /// The tool's name.
    pub name: String,
    /// The arguments, as the JSON text the model produced.
    pub arguments: String,
}

/// A tool call requested by the assistant.
#[derive(Clone, Debug, Default, PartialEq)]
pub struct ToolCall {
    /// The call's id.
    pub id: ToolCallId,
    /// What to call, with which arguments.
    pub function: FunctionCall,
    /// Opaque provider payload attached to the call.
    pub encrypted_value: Option<String>,
}

impl ToolCall {
    /// A call to `name` with `arguments`, under `id`.
    pub fn new(id: &str, name: &str, arguments: &str) -> (call: Self)
        ensures
            call.id@ == id@,
            call.function.name@ == name@,
            call.function.arguments@ == arguments@,
            call.encrypted_value is None,
    {
        ToolCall {
            id: ToolCallId::new(id),
            function: FunctionCall { name: name.to_owned(), arguments: arguments.to_owned() },
            encrypted_value: None,
        }
    }
}

/// Model output, optionally requesting tool calls.
#[derive(Clone, Debug, Default, PartialEq)]
pub struct AssistantMessage {
    /// Message id.
    pub id: MessageId,
    /// The reply text. Absent when the turn is tool calls only.
    pub content: Option<String>,
    /// Optional display name for the author.
    pub name: Option<String>,
    /// Opaque provider payload for zero-data-retention modes.
    pub encrypted_value: Option<String>,
    /// Tool calls the assistant wants executed.
    pub tool_calls: Option<Vec<ToolCall>>,
    /// The subagent run that produced this message, when one did.
    pub subagent_run_id: Option<RunId>,
}

/// End-user input, possibly multimodal.
#[derive(Clone, Debug, Default, PartialEq)]
pub struct UserMessage {
    /// Message id.
    pub id: MessageId,
    /// Text or multimodal parts.
    pub content: UserContent,
    /// Optional display name for the author.
    pub name: Option<String>,
    /// Opaque provider payload for zero-data-retention modes.
    pub encrypted_value: Option<String>,
    /// The subagent run that produced this message, when one did.
    pub subagent_run_id: Option<RunId>,
}

/// The result of a tool call, fed back to the model.
#[derive(Clone, Debug, Default, PartialEq)]
pub struct ToolMessage {
    /// Message id.
    pub id: MessageId,
    /// The result, already rendered to a string.
    pub content: String,
    /// The call this result answers.
    pub tool_call_id: ToolCallId,
    /// Set when the tool failed.
    pub error: Option<String>,
    /// Opaque provider payload for zero-data-retention modes.
    pub encrypted_value: Option<String>,
    /// The subagent run that produced this message, when one did.
    pub subagent_run_id: Option<RunId>,
}

/// A structured progress update the client renders as it likes.
#[derive(Clone, Debug, Default, PartialEq)]
pub struct ActivityMessage {
    /// Message id.
    pub id: MessageId,
    /// Client-defined activity discriminator, for example `"web_search"`.
    pub activity_type: String,
    /// The activity payload, a JSON object.
    pub content: serde_json::Value,
    /// The subagent run that produced this message, when one did.
    pub subagent_run_id: Option<RunId>,
}

/// Model reasoning, shown separately from the reply.
#[derive(Clone, Debug, Default, PartialEq)]
pub struct ReasoningMessage {
    /// Message id.
    pub id: MessageId,
    /// The reasoning text.
    pub content: String,
    /// Opaque provider payload for zero-data-retention modes.
    pub encrypted_value: Option<String>,
    /// The subagent run that produced this message, when one did.
    pub subagent_run_id: Option<RunId>,
}

/// A message in a thread, discriminated by its role.
#[derive(Clone, Debug, PartialEq)]
pub enum Message {
    /// See [`DeveloperMessage`].
    Developer(DeveloperMessage),
    /// See [`SystemMessage`].
    System(SystemMessage),
    /// See [`AssistantMessage`].
    Assistant(AssistantMessage),
    /// See [`UserMessage`].
    User(UserMessage),
    /// See [`ToolMessage`].
    Tool(ToolMessage),
    /// See [`ActivityMessage`].
    Activity(ActivityMessage),
    /// See [`ReasoningMessage`].
    Reasoning(ReasoningMessage),
}

impl Message {
    /// The message id, whatever the role.
    pub open spec fn spec_id(&self) -> MessageId {
        match self {
            Message::Developer(m) => m.id,
            Message::System(m) => m.id,
            Message::Assistant(m) => m.id,
            Message::User(m) => m.id,
            Message::Tool(m) => m.id,
            Message::Activity(m) => m.id,
            Message::Reasoning(m) => m.id,
        }
    }

    /// The role, whatever the variant.
    pub open spec fn spec_role(&self) -> Role {
        match self {
            Message::Developer(_) => Role::Developer,
            Message::System(_) => Role::System,
            Message::Assistant(_) => Role::Assistant,
            Message::User(_) => Role::User,
            Message::Tool(_) => Role::Tool,
            Message::Activity(_) => Role::Activity,
            Message::Reasoning(_) => Role::Reasoning,
        }
    }

    /// The same message attributed to `id` instead.
    pub open spec fn retagged(self, id: Option<RunId>) -> Message {
        match self {
            Message::Developer(m) => Message::Developer(DeveloperMessage { subagent_run_id: id, ..m }),
            Message::System(m) => Message::System(SystemMessage { subagent_run_id: id, ..m }),
            Message::Assistant(m) => Message::Assistant(AssistantMessage { subagent_run_id: id, ..m }),
            Message::User(m) => Message::User(UserMessage { subagent_run_id: id, ..m }),
            Message::Tool(m) => Message::Tool(ToolMessage { subagent_run_id: id, ..m }),
            Message::Activity(m) => Message::Activity(ActivityMessage { subagent_run_id: id, ..m }),
            Message::Reasoning(m) => Message::Reasoning(ReasoningMessage { subagent_run_id: id, ..m }),
        }
    }

    /// The subagent run that produced the message, whatever the variant.
    pub open spec fn spec_subagent_run_id(&self) -> Option<RunId> {
        match self {
            Message::Developer(m) => m.subagent_run_id,
            Message::System(m) => m.subagent_run_id,
            Message::Assistant(m) => m.subagent_run_id,
            Message::User(m) => m.subagent_run_id,
            Message::Tool(m) => m.subagent_run_id,
            Message::Activity(m) => m.subagent_run_id,
            Message::Reasoning(m) => m.subagent_run_id,
        }
    }

    /// Builds a user message carrying plain text.
    pub fn user(id: &str, content: &str) -> (message: Self)
        ensures
            message matches Message::User(m) && m.id@ == id@ && m.name is None
                && m.encrypted_value is None && m.subagent_run_id is None
                && (m.content matches UserContent::Text(t) && t@ == content@),
    {
        Message::User(UserMessage {
            id: MessageId::new(id),
            content: UserContent::Text(content.to_owned()),
            name: None,
            encrypted_value: None,
            subagent_run_id: None,
        })
    }

    /// Builds an assistant message carrying plain text.
    pub fn assistant(id: &str, content: &str) -> (message: Self)
        ensures
            message matches Message::Assistant(m) && m.id@ == id@ && m.name is None
                && m.encrypted_value is None && m.subagent_run_id is None && m.tool_calls is None
                && (m.content matches Some(t) && t@ == content@),
    {
        Message::Assistant(AssistantMessage {
            id: MessageId::new(id),
            content: Some(content.to_owned()),
            name: None,
            encrypted_value: None,
            tool_calls: None,
            subagent_run_id: None,
        })
    }

    /// Builds a system message.
    pub fn system(id: &str, content: &str) -> (message: Self)
        ensures
            message matches Message::System(m) && m.id@ == id@ && m.content@ == content@
                && m.name is None && m.encrypted_value is None && m.subagent_run_id is None,
    {
        Message::System(SystemMessage {
            id: MessageId::new(id),
            content: content.to_owned(),
            name: None,
            encrypted_value: None,
            subagent_run_id: None,
        })
    }

    /// Builds a developer message.
    pub fn developer(id: &str, content: &str) -> (message: Self)
        ensures
            message matches Message::Developer(m) && m.id@ == id@ && m.content@ == content@
                && m.name is None && m.encrypted_value is None && m.subagent_run_id is None,
    {
        Message::Developer(DeveloperMessage {
            id: MessageId::new(id),
            content: content.to_owned(),
            name: None,
            encrypted_value: None,
            subagent_run_id: None,
        })
    }

    /// Builds a tool result message.
    pub fn tool(id: &str, tool_call_id: &str, content: &str) -> (message: Self)
        ensures
            message matches Message::Tool(m) && m.id@ == id@ && m.tool_call_id@ == tool_call_id@
                && m.content@ == content@ && m.error is None && m.encrypted_value is None
                && m.subagent_run_id is None,
    {
        Message::Tool(ToolMessage {
            id: MessageId::new(id),
            content: content.to_owned(),
            tool_call_id: ToolCallId::new(tool_call_id),
            error: None,
            encrypted_value: None,
            subagent_run_id: None,
        })
    }

    /// The message id, whatever the role.
    pub fn id(&self) -> (id: &MessageId)
        ensures
            *id == self.spec_id(),
    {
        match self {
            Message::Developer(m) => &m.id,
            Message::System(m) => &m.id,
            Message::Assistant(m) => &m.id,
            Message::User(m) => &m.id,
            Message::Tool(m) => &m.id,
            Message::Activity(m) => &m.id,
            Message::Reasoning(m) => &m.id,
        }
    }

    /// The role, whatever the variant.
    pub fn role(&self) -> (role: Role)
        ensures
            role == self.spec_role(),
    {
        match self {
            Message::Developer(_) => Role::Developer,
            Message::System(_) => Role::System,
            Message::Assistant(_) => Role::Assistant,
            Message::User(_) => Role::User,
            Message::Tool(_) => Role::Tool,
            Message::Activity(_) => Role::Activity,
            Message::Reasoning(_) => Role::Reasoning,
        }
    }

    /// The subagent run that produced the message, if one did.
    pub fn subagent_run_id(&self) -> (id: Option<&RunId>)
        ensures
            id == match self.spec_subagent_run_id() {
                Some(r) => Some(&r),
                None => None::<&RunId>,
            },
    {
        match self {
            Message::Developer(m) => m.subagent_run_id.as_ref(),
            Message::System(m) => m.subagent_run_id.as_ref(),
            Message::Assistant(m) => m.subagent_run_id.as_ref(),
            Message::User(m) => m.subagent_run_id.as_ref(),
            Message::Tool(m) => m.subagent_run_id.as_ref(),
            Message::Activity(m) => m.subagent_run_id.as_ref(),
            Message::Reasoning(m) => m.subagent_run_id.as_ref(),
        }
    }

    /// Whether a subagent run produced the message.
    pub fn is_attributed(&self) -> (tagged: bool)
        ensures
            tagged == (self.spec_subagent_run_id() is Some),
    {
        match self {
            Message::Developer(m) => m.subagent_run_id.is_some(),
            Message::System(m) => m.subagent_run_id.is_some(),
            Message::Assistant(m) => m.subagent_run_id.is_some(),
            Message::User(m) => m.subagent_run_id.is_some(),
            Message::Tool(m) => m.subagent_run_id.is_some(),
            Message::Activity(m) => m.subagent_run_id.is_some(),
            Message::Reasoning(m) => m.subagent_run_id.is_some(),
        }
    }

    /// Replaces the subagent attribution, leaving everything else as it was.
    pub fn set_subagent_run_id(&mut self, id: Option<RunId>)
        ensures
            *final(self) == old(self).retagged(id),
            final(self).spec_subagent_run_id() == id,
            final(self).spec_id() == old(self).spec_id(),
            final(self).spec_role() == old(self).spec_role(),
    {
        match self {
            Message::Developer(m) => m.subagent_run_id = id,
            Message::System(m) => m.subagent_run_id = id,
            Message::Assistant(m) => m.subagent_run_id = id,
            Message::User(m) => m.subagent_run_id = id,
            Message::Tool(m) => m.subagent_run_id = id,
            Message::Activity(m) => m.subagent_run_id = id,
            Message::Reasoning(m) => m.subagent_run_id = id,
        }
    }
}

} // verus!
