//! Requests and responses of the chat-completions endpoint.

use vstd::prelude::*;

use crate::api_v1::common::Usage;
use crate::api_v1::tools::tool_call_views;
use crate::api_v1::tools::tool_calls_from_generic;
use crate::api_v1::tools::tool_calls_into_generic;
use crate::api_v1::tools::ToolCall;
use crate::generic::GenericFunctionSpec;
use crate::generic::GenericMessage;
use crate::generic::GenericRole;
use crate::generic::MessageView;
use crate::text::option_text;

verus! {

/// The kind of a tool: only functions exist.
#[derive(Debug, Clone, Copy, PartialEq, Eq, Structural)]
pub enum ToolType {
    Function,
}

/// Whether the model may choose to call tools.
#[derive(Debug, Clone, Copy, PartialEq, Eq, Structural)]
pub enum ToolChoice {
    /// The model calls no tool.
    Off,
    /// The model decides.
    Auto,
}

/// Who speaks in a message on the wire.
#[derive(Debug, Clone, Copy, PartialEq, Eq, Structural)]
pub enum MessageRole {
    User,
    System,
    Assistant,
    Function,
    Tool,
}

impl MessageRole {
    /// The provider-independent role for this wire role; a function speaks
    /// as a tool.
    pub open spec fn generic(self) -> GenericRole {
        match self {
            MessageRole::User => GenericRole::User,
            MessageRole::System => GenericRole::System,
            MessageRole::Assistant => GenericRole::Assistant,
            MessageRole::Function => GenericRole::Tool,
            MessageRole::Tool => GenericRole::Tool,
        }
    }

    /// The wire role for a provider-independent role.
    pub fn from_generic(value: GenericRole) -> (role: MessageRole)
        ensures
            role == match value {
                GenericRole::System => MessageRole::System,
                GenericRole::Assistant => MessageRole::Assistant,
                GenericRole::User => MessageRole::User,
                GenericRole::Tool => MessageRole::Tool,
            },
            role.generic() == value,
    {
        match value {
            GenericRole::System => MessageRole::System,
            GenericRole::Assistant => MessageRole::Assistant,
            GenericRole::User => MessageRole::User,
            GenericRole::Tool => MessageRole::Tool,
        }
    }

    /// The provider-independent role for a wire role; a function speaks as
    /// a tool.
    pub fn into_generic(self) -> (role: GenericRole)
        ensures
            role == self.generic(),
    {
        match self {
            MessageRole::User => GenericRole::User,
            MessageRole::System => GenericRole::System,
            MessageRole::Assistant => GenericRole::Assistant,
            MessageRole::Function => GenericRole::Tool,
            MessageRole::Tool => GenericRole::Tool,
        }
    }
}

impl From<GenericRole> for MessageRole {
    fn from(value: GenericRole) -> (role: MessageRole) {
        MessageRole::from_generic(value)
    }
}

impl vstd::std_specs::convert::FromSpecImpl<GenericRole> for MessageRole {
    open spec fn obeys_from_spec() -> bool {
        true
    }

    open spec fn from_spec(value: GenericRole) -> MessageRole {
        match value {
            GenericRole::System => MessageRole::System,
            GenericRole::Assistant => MessageRole::Assistant,
            GenericRole::User => MessageRole::User,
            GenericRole::Tool => MessageRole::Tool,
        }
    }
}

impl From<MessageRole> for GenericRole {
    fn from(value: MessageRole) -> (role: GenericRole) {
        value.into_generic()
    }
}

impl vstd::std_specs::convert::FromSpecImpl<MessageRole> for GenericRole {
    open spec fn obeys_from_spec() -> bool {
        true
    }

    open spec fn from_spec(value: MessageRole) -> GenericRole {
        value.generic()
    }
}

/// The content of a message: text.
#[derive(Debug, Clone, PartialEq, Eq)]
pub enum Content {
    Text(String),
}

impl Content {
    /// The text of the content.
    pub open spec fn text(self) -> Seq<char> {
        match self {
            Content::Text(text) => text@,
        }
    }

    /// What the content is written as on the wire: its text, or nothing
    /// where the text is empty.
    pub fn wire_text(&self) -> (text: Option<&str>)
        ensures
            match text {
                Some(written) => written@ == self.text() && self.text().len() > 0,
                None => self.text().len() == 0,
            },
    {
        match self {
            Content::Text(text) => {
                if text.as_str().is_empty() {
                    None
                } else {
                    Some(text.as_str())
                }
            },
        }
    }

    /// The content that the wire writes as `text`: nothing reads as the
    /// empty text.
    pub fn from_wire(text: Option<&str>) -> (content: Content)
        ensures
            content.text() == match text {
                Some(written) => written@,
                None => Seq::<char>::empty(),
            },
    {
        match text {
            Some(written) => Content::Text(written.to_owned()),
            None => Content::Text(String::new()),
        }
    }
}

/// The kinds of content.
#[derive(Debug, Clone, Copy, PartialEq, Eq, Structural)]
pub enum ContentType {
    Text,
}

/// Why the model stopped.
#[derive(Debug, Clone, Copy, PartialEq, Eq, Structural)]
pub enum FinishReason {
    Stop,
    Length,
    ContentFilter,
    ToolCalls,
}

/// Details on why the model stopped.
#[derive(Debug)]
pub struct FinishDetails {
    pub kind: FinishReason,
    pub stop: String,
}

/// A function that is offered to the model as a tool, on the wire.
#[derive(Debug, Clone)]
pub struct ToolFunctionSpec {
    pub name: String,
    pub description: String,
    pub parameters: serde_json::Value,
    pub strict: Option<bool>,
}

/// A tool that is offered to the model, on the wire.
#[derive(Debug, Clone)]
pub struct ToolSpec {
    pub function: ToolFunctionSpec,
    pub kind: ToolType,
}

impl ToolSpec {
    /// The wire form of a function offered as a tool: a function whose
    /// schema is to be followed strictly.
    pub fn from_generic(value: GenericFunctionSpec) -> (tool: ToolSpec)
        ensures
            tool.function.name == value.name,
            tool.function.description == value.description,
            tool.function.parameters == value.parameters,
            tool.function.strict == Some(true),
            tool.kind == ToolType::Function,
    {
        ToolSpec {
            function: ToolFunctionSpec {
                name: value.name,
                description: value.description,
                parameters: value.parameters,
                strict: Some(true),
            },
            kind: ToolType::Function,
        }
    }
}

impl From<GenericFunctionSpec> for ToolSpec {
    fn from(value: GenericFunctionSpec) -> (tool: ToolSpec) {
        ToolSpec::from_generic(value)
    }
}

impl vstd::std_specs::convert::FromSpecImpl<GenericFunctionSpec> for ToolSpec {
    open spec fn obeys_from_spec() -> bool {
        true
    }

    open spec fn from_spec(value: GenericFunctionSpec) -> ToolSpec {
        ToolSpec {
            function: ToolFunctionSpec {
                name: value.name,
                description: value.description,
                parameters: value.parameters,
                strict: Some(true),
            },
            kind: ToolType::Function,
        }
    }
}

/// A message of a request.
#[derive(Debug, Clone)]
pub struct ChatCompletionMessage {
    pub role: MessageRole,
    pub content: Option<Content>,
    pub name: Option<String>,
    pub tool_calls: Option<Vec<ToolCall>>,
    pub tool_call_id: Option<String>,
}

impl View for ChatCompletionMessage {
    type V = MessageView;

    open spec fn view(&self) -> MessageView {
        MessageView {
            content: match self.content {
                Some(content) => Some(content.text()),
                None => None,
            },
            role: self.role.generic(),
            name: option_text(self.name),
            tool_calls: match self.tool_calls {
                Some(calls) => Some(tool_call_views(calls@)),
                None => None,
            },
            tool_call_id: option_text(self.tool_call_id),
        }
    }
}

impl ChatCompletionMessage {
    /// The wire form of a provider-independent message: the same content,
    /// the same speaker, the same tool calls.
    pub fn from_generic(value: GenericMessage) -> (message: ChatCompletionMessage)
        ensures
            message@ == value@,
            message.role == match value.role {
                GenericRole::System => MessageRole::System,
                GenericRole::Assistant => MessageRole::Assistant,
                GenericRole::User => MessageRole::User,
                GenericRole::Tool => MessageRole::Tool,
            },
    {
        let tool_calls: Option<Vec<ToolCall>> = match &value.tool_calls {
            Some(intents) => Some(tool_calls_from_generic(intents)),
            None => None,
        };
        let content: Option<Content> = match value.content {
            Some(text) => Some(Content::Text(text)),
            None => None,
        };
        ChatCompletionMessage {
            role: MessageRole::from_generic(value.role),
            content,
            name: value.name,
            tool_calls,
            tool_call_id: value.tool_call_id,
        }
    }
}

/// A message of a response.
#[derive(Debug, Clone)]
pub struct ChatCompletionMessageForResponse {
    pub role: MessageRole,
    pub content: Option<String>,
    pub reasoning_content: Option<String>,
    pub tool_calls: Option<Vec<ToolCall>>,
    pub tool_call_id: Option<String>,
    pub name: Option<String>,
}

impl View for ChatCompletionMessageForResponse {
    type V = MessageView;

    /// What the message says, without the model's reasoning.
    open spec fn view(&self) -> MessageView {
        MessageView {
            content: option_text(self.content),
            role: self.role.generic(),
            name: option_text(self.name),
            tool_calls: match self.tool_calls {
                Some(calls) => Some(tool_call_views(calls@)),
                None => None,
            },
            tool_call_id: option_text(self.tool_call_id),
        }
    }
}

impl ChatCompletionMessageForResponse {
    /// The provider-independent form of the message: the same content, the
    /// same speaker, the same tool calls. The model's reasoning is dropped.
    pub fn into_generic(self) -> (message: GenericMessage)
        ensures
            message@ == self@,
    {
        let tool_calls = match &self.tool_calls {
            Some(calls) => Some(tool_calls_into_generic(calls)),
            None => None,
        };
        GenericMessage {
            content: self.content,
            role: self.role.into_generic(),
            tool_calls,
            name: self.name,
            tool_call_id: self.tool_call_id,
        }
    }
}

/// One choice of a response.
#[derive(Debug)]
pub struct ChatCompletionChoice {
    pub index: i64,
    pub message: ChatCompletionMessageForResponse,
    pub finish_reason: Option<FinishReason>,
    pub finish_details: Option<FinishDetails>,
}

/// A response of the chat-completions endpoint.
#[derive(Debug)]
pub struct ChatCompletionResponse {
    pub id: Option<String>,
    pub object: String,
    pub created: i64,
    pub model: String,
    pub choices: Vec<ChatCompletionChoice>,
    pub usage: Usage,
    pub system_fingerprint: Option<String>,
}

} // verus!
