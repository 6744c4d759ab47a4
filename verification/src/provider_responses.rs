//! What the backend makes of the answers of the responses endpoint.
//!
//! The endpoint answers in loosely shaped JSON. The shapes below hold what
//! the backend reads of it.

use vstd::prelude::*;
use vstd::string::StringExecFns;

use crate::api_v1::chat_completion::ChatCompletionMessage;
use crate::api_v1::chat_completion::Content;
use crate::api_v1::chat_completion::MessageRole;
use crate::error::ArtificialError;
use crate::error::OpenAiError;
use crate::generic::event_views;
use crate::generic::EventView;
use crate::generic::GenericChatCompletionResponse;
use crate::generic::GenericMessage;
use crate::generic::GenericRole;
use crate::generic::GenericUsageReport;
use crate::generic::MessageView;
use crate::generic::ResponseContent;
use crate::generic::StreamEvent;
use crate::text::concat_text;
use crate::text::option_text;

verus! {

/// The counts of a usage object, each where the object holds it as an
/// integer.
#[derive(Debug, Clone, Copy)]
pub struct UsageFields {
    pub input_tokens: Option<i64>,
    pub prompt_tokens: Option<i64>,
    pub output_tokens: Option<i64>,
    pub completion_tokens: Option<i64>,
    pub total_tokens: Option<i64>,
}

/// The tokens that went in: by the name that the responses endpoint uses,
/// else by the name that the chat endpoint uses.
pub open spec fn tokens_in(fields: UsageFields) -> Option<i64> {
    match fields.input_tokens {
        Some(n) => Some(n),
        None => fields.prompt_tokens,
    }
}

/// The tokens that came out, by either name.
pub open spec fn tokens_out(fields: UsageFields) -> Option<i64> {
    match fields.output_tokens {
        Some(n) => Some(n),
        None => fields.completion_tokens,
    }
}

/// The total: as the object states it, else the sum of what went in and
/// what came out, where both are known and the sum fits.
pub open spec fn tokens_total(fields: UsageFields) -> Option<i64> {
    match fields.total_tokens {
        Some(n) => Some(n),
        None => match (tokens_in(fields), tokens_out(fields)) {
            (Some(i), Some(o)) => if i64::MIN <= i + o <= i64::MAX {
                Some((i + o) as i64)
            } else {
                None
            },
            _ => None,
        },
    }
}

/// The usage report that a usage object amounts to: all three counts must
/// be known.
pub open spec fn usage_of(fields: UsageFields) -> Option<GenericUsageReport> {
    match (tokens_in(fields), tokens_out(fields), tokens_total(fields)) {
        (Some(i), Some(o), Some(t)) => Some(
            GenericUsageReport { prompt_tokens: i, completion_tokens: o, total_tokens: t },
        ),
        _ => None,
    }
}

/// The usage report that a usage object amounts to.
pub fn extract_usage_from_obj(fields: &UsageFields) -> (report: Option<GenericUsageReport>)
    ensures
        report == usage_of(*fields),
{
    let input: Option<i64> = match fields.input_tokens {
        Some(n) => Some(n),
        None => fields.prompt_tokens,
    };
    let output: Option<i64> = match fields.output_tokens {
        Some(n) => Some(n),
        None => fields.completion_tokens,
    };
    let total: Option<i64> = match fields.total_tokens {
        Some(n) => Some(n),
        None => match (input, output) {
            (Some(i), Some(o)) => i.checked_add(o),
            _ => None,
        },
    };
    match (input, output, total) {
        (Some(i), Some(o), Some(t)) => Some(
            GenericUsageReport { prompt_tokens: i, completion_tokens: o, total_tokens: t },
        ),
        _ => None,
    }
}

/// A usage value: an object with its counts, or anything else.
#[derive(Debug, Clone, Copy)]
pub enum UsageShape {
    Object(UsageFields),
    Other,
}

/// The usage report that a usage value amounts to: only an object has one.
pub open spec fn usage_of_shape(usage: UsageShape) -> Option<GenericUsageReport> {
    match usage {
        UsageShape::Object(fields) => usage_of(fields),
        UsageShape::Other => None,
    }
}

/// The usage report that a usage value amounts to.
pub fn extract_usage(usage: &UsageShape) -> (report: Option<GenericUsageReport>)
    ensures
        report == usage_of_shape(*usage),
{
    match usage {
        UsageShape::Object(fields) => extract_usage_from_obj(fields),
        UsageShape::Other => None,
    }
}

/// An item of an output array: an object, with its type and its text each
/// where it holds them as strings, or anything else.
#[derive(Debug)]
pub enum OutputItem {
    Object { kind: Option<String>, text: Option<String> },
    Other,
}

/// An output value: an array of items, an object with its text where it
/// holds one as a string, or anything else.
#[derive(Debug)]
pub enum OutputShape {
    Array(Vec<OutputItem>),
    Object { text: Option<String> },
    Other,
}

/// The text that one item of an output array contributes: that of an
/// object of type `output_text`, or without a type.
pub open spec fn item_text(item: OutputItem) -> Seq<char> {
    match item {
        OutputItem::Object { kind, text } => match text {
            Some(text) => match kind {
                Some(kind) => if kind@ == "output_text"@ {
                    text@
                } else {
                    Seq::empty()
                },
                None => text@,
            },
            None => Seq::empty(),
        },
        OutputItem::Other => Seq::empty(),
    }
}

/// The texts of the items, joined in order.
pub open spec fn joined_text(items: Seq<OutputItem>) -> Seq<char>
    decreases items.len(),
{
    if items.len() == 0 {
        Seq::empty()
    } else {
        joined_text(items.drop_last()) + item_text(items.last())
    }
}

/// The text of an output value: what the items of an array contribute,
/// joined; the text of an object, if it has one; nothing for anything
/// else.
pub open spec fn output_text(output: OutputShape) -> Option<Seq<char>> {
    match output {
        OutputShape::Array(items) => Some(joined_text(items@)),
        OutputShape::Object { text } => option_text(text),
        OutputShape::Other => None,
    }
}

/// The text of an output value.
pub fn extract_output_text(output: &OutputShape) -> (text: Option<String>)
    ensures
        option_text(text) == output_text(*output),
{
    match output {
        OutputShape::Array(items) => {
            let mut joined: String = String::new();
            let mut i: usize = 0;
            while i < items.len()
                invariant
                    i <= items.len(),
                    joined@ == joined_text(items@.take(i as int)),
                decreases items.len() - i,
            {
                proof {
                    assert(items@.take(i + 1).drop_last() =~= items@.take(i as int));
                    assert(items@.take(i + 1).last() == items@[i as int]);
                }
                let ghost before = joined@;
                match &items[i] {
                    OutputItem::Object { kind, text } => {
                        if let Some(text) = text {
                            let wanted: bool = match kind {
                                Some(kind) => {
                                    let expected: String = "output_text".to_owned();
                                    *kind == expected
                                },
                                None => true,
                            };
                            if wanted {
                                joined.append(text.as_str());
                            }
                        }
                    },
                    OutputItem::Other => {},
                }
                proof {
                    assert(joined@ =~= before + item_text(items@[i as int]));
                }
                i = i + 1;
            }
            proof {
                assert(items@.take(i as int) =~= items@);
            }
            Some(joined)
        },
        OutputShape::Object { text } => match text {
            Some(text) => Some(text.clone()),
            None => None,
        },
        OutputShape::Other => None,
    }
}

/// The usage report of an answer: that of the usage value among the
/// answer's extra fields, where there is one, else that of its usage field.
pub open spec fn response_usage(
    extra_usage: Option<UsageShape>,
    usage: Option<UsageShape>,
) -> Option<GenericUsageReport> {
    match extra_usage {
        Some(shape) => usage_of_shape(shape),
        None => match usage {
            Some(shape) => usage_of_shape(shape),
            None => None,
        },
    }
}

/// The text of an answer: that of its output, and the empty text where
/// there is no output or the output has no text.
pub open spec fn response_text(output: Option<OutputShape>) -> Seq<char> {
    match output {
        Some(shape) => match output_text(shape) {
            Some(text) => text,
            None => Seq::empty(),
        },
        None => Seq::empty(),
    }
}

/// Turns an answer of the responses endpoint into the answer of a chat
/// completion: a finished message in which the assistant says the text of
/// the output, with the usage report of the answer. `extra_usage` is the
/// usage value among the answer's extra fields, `usage` that of its usage
/// field.
pub fn finish_response(
    extra_usage: &Option<UsageShape>,
    usage: &Option<UsageShape>,
    output: &Option<OutputShape>,
) -> (answer: GenericChatCompletionResponse<GenericMessage>)
    ensures
        answer.usage == response_usage(*extra_usage, *usage),
        answer.content matches ResponseContent::Finished(message) && message@ == (MessageView {
            content: Some(response_text(*output)),
            role: GenericRole::Assistant,
            name: None,
            tool_calls: None,
            tool_call_id: None,
        }),
{
    let report: Option<GenericUsageReport> = match extra_usage {
        Some(shape) => extract_usage(shape),
        None => match usage {
            Some(shape) => extract_usage(shape),
            None => None,
        },
    };
    let text: String = match output {
        Some(shape) => match extract_output_text(shape) {
            Some(text) => text,
            None => String::new(),
        },
        None => String::new(),
    };
    GenericChatCompletionResponse {
        content: ResponseContent::Finished(GenericMessage::new(text, GenericRole::Assistant)),
        usage: report,
    }
}

/// A message as the responses endpoint takes it: the name of the role, and
/// the text.
#[derive(Debug)]
pub struct ResponsesMessage {
    pub role: &'static str,
    pub text: String,
}

/// The name of a role for the responses endpoint; a function speaks as a
/// tool.
pub open spec fn responses_role(role: MessageRole) -> Seq<char> {
    match role {
        MessageRole::System => "system"@,
        MessageRole::User => "user"@,
        MessageRole::Assistant => "assistant"@,
        MessageRole::Tool => "tool"@,
        MessageRole::Function => "tool"@,
    }
}

/// The text of a message for the responses endpoint; a message without
/// content has the empty text.
pub open spec fn responses_text(message: ChatCompletionMessage) -> Seq<char> {
    match message.content {
        Some(content) => content.text(),
        None => Seq::empty(),
    }
}

/// The messages as the responses endpoint takes them, in the same order.
pub fn to_responses_messages(messages: &Vec<ChatCompletionMessage>) -> (out: Vec<ResponsesMessage>)
    ensures
        out@.len() == messages@.len(),
        forall|k: int|
            0 <= k < out@.len() ==> (#[trigger] out@[k]).role@ == responses_role(messages@[k].role)
                && out@[k].text@ == responses_text(messages@[k]),
{
    let mut out: Vec<ResponsesMessage> = Vec::new();
    let mut i: usize = 0;
    while i < messages.len()
        invariant
            i <= messages.len(),
            out@.len() == i,
            forall|k: int|
                0 <= k < i ==> (#[trigger] out@[k]).role@ == responses_role(messages@[k].role)
                    && out@[k].text@ == responses_text(messages@[k]),
        decreases messages.len() - i,
    {
        let message: &ChatCompletionMessage = &messages[i];
        let role: &'static str = match message.role {
            MessageRole::System => "system",
            MessageRole::User => "user",
            MessageRole::Assistant => "assistant",
            MessageRole::Tool => "tool",
            MessageRole::Function => "tool",
        };
        let text: String = match &message.content {
            Some(Content::Text(text)) => text.clone(),
            None => String::new(),
        };
        out.push(ResponsesMessage { role, text });
        i = i + 1;
    }
    out
}

/// An event of a streamed answer of the responses endpoint.
#[derive(Debug)]
pub enum ResponseStreamEvent {
    /// A piece of the output text.
    OutputTextDelta { delta: String },
    /// The whole output text.
    OutputTextDone { text: String },
    /// The answer is complete; the usage may come with it.
    Completed { usage: Option<UsageShape> },
    /// The stream failed; the error is kept as the JSON text it came as.
    Error { error: String },
    /// A piece of a refusal.
    RefusalDelta { delta: String },
    /// The whole refusal.
    RefusalDone { text: String },
    /// Any other event.
    Unknown,
}

/// What one event of a streamed answer gives rise to.
#[derive(Debug)]
pub struct ResponsesStep {
    /// The events to pass on, in order.
    pub events: Vec<StreamEvent>,
    /// Whether the stream is over.
    pub finished: bool,
    /// The error that ended the stream, if one did.
    pub error: Option<ArtificialError>,
}

/// The events that an event of the responses endpoint is passed on as.
pub open spec fn responses_events(event: ResponseStreamEvent) -> Seq<EventView> {
    match event {
        ResponseStreamEvent::OutputTextDelta { delta } => if delta@.len() > 0 {
            seq![EventView::TextDelta(delta@)]
        } else {
            Seq::empty()
        },
        ResponseStreamEvent::Completed { usage } => match usage {
            Some(shape) => match usage_of_shape(shape) {
                Some(report) => seq![EventView::Usage(report), EventView::MessageEnd],
                None => seq![EventView::MessageEnd],
            },
            None => seq![EventView::MessageEnd],
        },
        _ => Seq::empty(),
    }
}

/// The error for an error event: an unknown error of the backend whose
/// message is `responses stream error: ` and the error's JSON text.
pub open spec fn is_stream_error(error: ArtificialError, detail: Seq<char>) -> bool {
    error matches ArtificialError::Backend(OpenAiError::Unknown(message)) && message@
        == "responses stream error: "@ + detail
}

fn stream_error(detail: &str) -> (error: ArtificialError)
    ensures
        is_stream_error(error, detail@),
{
    ArtificialError::Backend(
        OpenAiError::Unknown(concat_text("responses stream error: ", detail)),
    )
}

/// Handles one event of a streamed answer for a consumer of events. A
/// piece of text that is not empty is passed on. The completion passes on
/// the usage, where the event carries one that is complete, then ends the
/// message and the stream. An error event ends the stream with an error.
/// Every other event is passed over.
pub fn on_response_event(event: &ResponseStreamEvent) -> (step: ResponsesStep)
    ensures
        event_views(step.events@) == responses_events(*event),
        step.finished == (event is Completed || event is Error),
        match *event {
            ResponseStreamEvent::Error { error } => step.error matches Some(e) && is_stream_error(
                e,
                error@,
            ),
            _ => step.error is None,
        },
{
    let mut events: Vec<StreamEvent> = Vec::new();
    proof {
        assert(event_views(events@) =~= Seq::empty());
    }
    match event {
        ResponseStreamEvent::OutputTextDelta { delta } => {
            if !delta.as_str().is_empty() {
                events.push(StreamEvent::TextDelta(delta.clone()));
                proof {
                    assert(event_views(events@) =~= seq![EventView::TextDelta(delta@)]);
                }
            }
            ResponsesStep { events, finished: false, error: None }
        },
        ResponseStreamEvent::Completed { usage } => {
            if let Some(shape) = usage {
                if let Some(report) = extract_usage(shape) {
                    events.push(StreamEvent::Usage(report));
                }
            }
            events.push(StreamEvent::MessageEnd);
            proof {
                assert(event_views(events@) =~= responses_events(*event));
            }
            ResponsesStep { events, finished: true, error: None }
        },
        ResponseStreamEvent::Error { error } => ResponsesStep {
            events,
            finished: true,
            error: Some(stream_error(error.as_str())),
        },
        _ => ResponsesStep { events, finished: false, error: None },
    }
}

/// What one event of a streamed answer gives rise to for a consumer of
/// text.
#[derive(Debug)]
pub struct ResponsesTextStep {
    /// The piece of text to pass on, if any.
    pub text: Option<String>,
    /// Whether the stream is over.
    pub finished: bool,
    /// The error that ended the stream, if one did.
    pub error: Option<ArtificialError>,
}

/// Handles one event of a streamed answer for a consumer that wants
/// nothing but the text. A piece of text that is not empty is passed on.
/// The completion ends the stream, an error event ends it with an error,
/// and every other event is passed over.
pub fn on_response_text_event(event: &ResponseStreamEvent) -> (step: ResponsesTextStep)
    ensures
        option_text(step.text) == match *event {
            ResponseStreamEvent::OutputTextDelta { delta } => if delta@.len() > 0 {
                Some(delta@)
            } else {
                None
            },
            _ => None,
        },
        step.finished == (event is Completed || event is Error),
        match *event {
            ResponseStreamEvent::Error { error } => step.error matches Some(e) && is_stream_error(
                e,
                error@,
            ),
            _ => step.error is None,
        },
{
    match event {
        ResponseStreamEvent::OutputTextDelta { delta } => {
            if !delta.as_str().is_empty() {
                ResponsesTextStep { text: Some(delta.clone()), finished: false, error: None }
            } else {
                ResponsesTextStep { text: None, finished: false, error: None }
            }
        },
        ResponseStreamEvent::Completed { .. } => ResponsesTextStep {
            text: None,
            finished: true,
            error: None,
        },
        ResponseStreamEvent::Error { error } => ResponsesTextStep {
            text: None,
            finished: true,
            error: Some(stream_error(error.as_str())),
        },
        _ => ResponsesTextStep { text: None, finished: false, error: None },
    }
}

} // verus!
