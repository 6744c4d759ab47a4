//! Provider-independent messages, roles and stream events.

use vstd::prelude::*;

use crate::text::option_text;

verus! {

/// `serde_json::Value`: a JSON document. It is carried through unopened.
#[verifier::external_type_specification]
#[verifier::external_body]
pub struct ExJsonValue(serde_json::Value);

/// `serde_json::Value::clone`: the copy is the same document.
pub assume_specification[ <serde_json::Value as Clone>::clone ](
    value: &serde_json::Value,
) -> (copy: serde_json::Value)
    ensures
        copy == *value,
;

/// Who speaks in a chat message.
#[derive(Debug, Clone, Copy, PartialEq, Eq, Structural)]
pub enum GenericRole {
    /// Sets behaviour and style for the whole conversation.
    System,
    /// The model.
    Assistant,
    /// The human user.
    User,
    /// The result of a tool call, fed back into the conversation.
    Tool,
}

impl GenericRole {
    /// The role's name in lower case, as it is written on the wire.
    pub open spec fn name(self) -> Seq<char> {
        match self {
            GenericRole::System => "system"@,
            GenericRole::Assistant => "assistant"@,
            GenericRole::User => "user"@,
            GenericRole::Tool => "tool"@,
        }
    }

    /// The role's name in lower case, as it is written on the wire.
    pub fn as_str(&self) -> (s: &'static str)
        ensures
            s@ == self.name(),
    {
        match self {
            GenericRole::System => "system",
            GenericRole::Assistant => "assistant",
            GenericRole::User => "user",
            GenericRole::Tool => "tool",
        }
    }

    /// The role's name in lower case, as an owned string.
    pub fn to_string(&self) -> (s: String)
        ensures
            s@ == self.name(),
    {
        self.as_str().to_owned()
    }
}

/// How many tokens an exchange took.
#[derive(Debug, Clone, Copy, PartialEq, Eq)]
pub struct GenericUsageReport {
    pub prompt_tokens: i64,
    pub completion_tokens: i64,
    pub total_tokens: i64,
}

/// A function that the model asks to have called, with its arguments as a
/// JSON document.
#[derive(Debug, Clone, PartialEq)]
pub struct GenericFunctionCall {
    pub name: String,
    pub arguments: serde_json::Value,
}

/// A tool call that the model requests: an identifier to answer under, and
/// the function to call.
#[derive(Debug, Clone, PartialEq)]
pub struct GenericFunctionCallIntent {
    pub id: String,
    pub function: GenericFunctionCall,
}

/// The mathematical content of a requested tool call, in whatever shape
/// it is held.
pub struct IntentView {
    pub id: Seq<char>,
    pub name: Seq<char>,
    pub arguments: serde_json::Value,
}

impl View for GenericFunctionCallIntent {
    type V = IntentView;

    open spec fn view(&self) -> IntentView {
        IntentView { id: self.id@, name: self.function.name@, arguments: self.function.arguments }
    }
}

/// The contents of a list of requested tool calls, in order.
pub open spec fn intent_views(intents: Seq<GenericFunctionCallIntent>) -> Seq<IntentView> {
    intents.map_values(|intent: GenericFunctionCallIntent| intent@)
}

/// The mathematical content of a chat message, in whatever shape it is
/// held.
pub struct MessageView {
    pub content: Option<Seq<char>>,
    pub role: GenericRole,
    pub name: Option<Seq<char>>,
    pub tool_calls: Option<Seq<IntentView>>,
    pub tool_call_id: Option<Seq<char>>,
}

/// A chat message that is independent of any provider.
#[derive(Debug, Clone, PartialEq)]
pub struct GenericMessage {
    pub content: Option<String>,
    pub role: GenericRole,
    pub name: Option<String>,
    pub tool_calls: Option<Vec<GenericFunctionCallIntent>>,
    pub tool_call_id: Option<String>,
}

impl View for GenericMessage {
    type V = MessageView;

    open spec fn view(&self) -> MessageView {
        MessageView {
            content: option_text(self.content),
            role: self.role,
            name: option_text(self.name),
            tool_calls: match self.tool_calls {
                Some(calls) => Some(intent_views(calls@)),
                None => None,
            },
            tool_call_id: option_text(self.tool_call_id),
        }
    }
}

impl GenericMessage {
    /// A message of the given role that says `message`.
    pub fn new(message: String, role: GenericRole) -> (m: GenericMessage)
        ensures
            m.content == Some(message),
            m.role == role,
            m.name is None,
            m.tool_calls is None,
            m.tool_call_id is None,
    {
        GenericMessage {
            content: Some(message),
            role,
            name: None,
            tool_call_id: None,
            tool_calls: None,
        }
    }

    /// An assistant message without text that requests the given tool calls.
    pub fn new_tool_call(tool_call_id: String, tool_calls: Vec<GenericFunctionCallIntent>) -> (m:
        GenericMessage)
        ensures
            m.content is None,
            m.role == GenericRole::Assistant,
            m.name is None,
            m.tool_calls == Some(tool_calls),
            m.tool_call_id == Some(tool_call_id),
    {
        GenericMessage {
            content: None,
            role: GenericRole::Assistant,
            name: None,
            tool_calls: Some(tool_calls),
            tool_call_id: Some(tool_call_id),
        }
    }

    /// The message with its name set to `name`.
    pub fn with_name(self, name: &str) -> (m: GenericMessage)
        ensures
            option_text(m.name) == Some(name@),
            m.content == self.content,
            m.role == self.role,
            m.tool_calls == self.tool_calls,
            m.tool_call_id == self.tool_call_id,
    {
        let mut m = self;
        m.name = Some(name.to_owned());
        m
    }

    /// The message with its tool-call identifier set to `tool_call_id`.
    pub fn with_tool_call_id(self, tool_call_id: &str) -> (m: GenericMessage)
        ensures
            option_text(m.tool_call_id) == Some(tool_call_id@),
            m.content == self.content,
            m.role == self.role,
            m.name == self.name,
            m.tool_calls == self.tool_calls,
    {
        let mut m = self;
        m.tool_call_id = Some(tool_call_id.to_owned());
        m
    }
}

/// What a completed exchange holds: a finished answer, or a message that
/// requests tool calls.
#[derive(Debug)]
pub enum ResponseContent<T> {
    Finished(T),
    ToolCalls(GenericMessage),
}

/// The answer to a chat completion, with the token usage where it is known.
#[derive(Debug)]
pub struct GenericChatCompletionResponse<T> {
    pub content: ResponseContent<T>,
    pub usage: Option<GenericUsageReport>,
}

/// The kinds of chunk that a streamed response is made of.
#[derive(Debug, Clone, Copy)]
pub enum GenericStramingChatChunk {
    Created,
    Completed,
    Failed,
    OutputTextDelta,
    OutputTextDone,
}

/// A function that is offered to the model as a tool, with the JSON schema
/// of its parameters.
#[derive(Debug, Clone)]
pub struct GenericFunctionSpec {
    pub name: String,
    pub description: String,
    pub parameters: serde_json::Value,
}

/// What a streamed response tells its consumer, one event at a time.
#[derive(Debug, Clone, PartialEq)]
pub enum StreamEvent {
    /// A piece of the assistant's text.
    TextDelta(String),
    /// A tool call has begun; its identifier or its name may still be
    /// unknown.
    ToolCallStart { index: usize, id: Option<String>, name: Option<String> },
    /// A piece of the JSON text of a tool call's arguments.
    ToolCallArgumentsDelta { index: usize, arguments_fragment: String },
    /// A tool call is complete, with its arguments parsed.
    ToolCallComplete { index: usize, intent: GenericFunctionCallIntent },
    /// The assistant's message is over.
    MessageEnd,
    /// The token usage of the exchange.
    Usage(GenericUsageReport),
}

/// The mathematical content of a [`StreamEvent`].
#[allow(inconsistent_fields)]
pub enum EventView {
    TextDelta(Seq<char>),
    ToolCallStart { index: usize, id: Option<Seq<char>>, name: Option<Seq<char>> },
    ToolCallArgumentsDelta { index: usize, fragment: Seq<char> },
    ToolCallComplete { index: usize, id: Seq<char>, name: Seq<char>, arguments: serde_json::Value },
    MessageEnd,
    Usage(GenericUsageReport),
}

impl View for StreamEvent {
    type V = EventView;

    open spec fn view(&self) -> EventView {
        match *self {
            StreamEvent::TextDelta(text) => EventView::TextDelta(text@),
            StreamEvent::ToolCallStart { index, id, name } => EventView::ToolCallStart {
                index,
                id: option_text(id),
                name: option_text(name),
            },
            StreamEvent::ToolCallArgumentsDelta {
                index,
                arguments_fragment,
            } => EventView::ToolCallArgumentsDelta { index, fragment: arguments_fragment@ },
            StreamEvent::ToolCallComplete { index, intent } => EventView::ToolCallComplete {
                index,
                id: intent.id@,
                name: intent.function.name@,
                arguments: intent.function.arguments,
            },
            StreamEvent::MessageEnd => EventView::MessageEnd,
            StreamEvent::Usage(report) => EventView::Usage(report),
        }
    }
}

/// The contents of a list of events, in order.
pub open spec fn event_views(events: Seq<StreamEvent>) -> Seq<EventView> {
    events.map_values(|e: StreamEvent| e@)
}

} // verus!
