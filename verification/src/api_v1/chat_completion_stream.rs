//! The chunks of a streamed chat completion.

use vstd::prelude::*;

use crate::api_v1::chat_completion::FinishReason;
use crate::api_v1::chat_completion::MessageRole;
use crate::text::option_text;

verus! {

/// A piece of the function of a tool call.
#[derive(Debug)]
pub struct ToolCallFunctionDelta {
    pub name: Option<String>,
    pub arguments: Option<String>,
}

/// A piece of a tool call, addressed by the call's index.
#[derive(Debug)]
pub struct ToolCallDelta {
    pub index: usize,
    pub id: Option<String>,
    pub kind: Option<String>,
    pub function: Option<ToolCallFunctionDelta>,
}

/// A piece of a message.
#[derive(Debug)]
pub struct ChatCompletionMessageDelta {
    pub role: Option<MessageRole>,
    pub content: Option<String>,
    pub tool_calls: Option<Vec<ToolCallDelta>>,
}

/// One choice of a chunk.
#[derive(Debug)]
pub struct ChatCompletionChunkChoice {
    pub index: i64,
    pub delta: ChatCompletionMessageDelta,
    pub finish_reason: Option<FinishReason>,
}

/// One chunk of a streamed response.
#[derive(Debug)]
pub struct ChatCompletionChunkResponse {
    pub id: Option<String>,
    pub object: String,
    pub created: i64,
    pub model: String,
    pub choices: Vec<ChatCompletionChunkChoice>,
}

/// What a piece of a tool call carries: the call's index and, each where
/// present, its identifier, the name of its function and a fragment of the
/// JSON text of its arguments.
pub struct ToolCallFragment {
    pub index: usize,
    pub id: Option<Seq<char>>,
    pub name: Option<Seq<char>>,
    pub arguments: Option<Seq<char>>,
}

/// What one choice of a chunk carries.
pub struct ChoiceDelta {
    pub index: i64,
    pub content: Option<Seq<char>>,
    pub tool_calls: Seq<ToolCallFragment>,
    pub finish_reason: Option<FinishReason>,
}

impl View for ToolCallDelta {
    type V = ToolCallFragment;

    open spec fn view(&self) -> ToolCallFragment {
        ToolCallFragment {
            index: self.index,
            id: option_text(self.id),
            name: match self.function {
                Some(function) => option_text(function.name),
                None => None,
            },
            arguments: match self.function {
                Some(function) => option_text(function.arguments),
                None => None,
            },
        }
    }
}

/// The contents of a list of tool-call pieces, in order.
pub open spec fn fragment_views(pieces: Seq<ToolCallDelta>) -> Seq<ToolCallFragment> {
    pieces.map_values(|piece: ToolCallDelta| piece@)
}

impl View for ChatCompletionChunkChoice {
    type V = ChoiceDelta;

    open spec fn view(&self) -> ChoiceDelta {
        ChoiceDelta {
            index: self.index,
            content: option_text(self.delta.content),
            tool_calls: match self.delta.tool_calls {
                Some(pieces) => fragment_views(pieces@),
                None => Seq::empty(),
            },
            finish_reason: self.finish_reason,
        }
    }
}

impl View for ChatCompletionChunkResponse {
    type V = Seq<ChoiceDelta>;

    open spec fn view(&self) -> Seq<ChoiceDelta> {
        self.choices@.map_values(|choice: ChatCompletionChunkChoice| choice@)
    }
}

} // verus!
