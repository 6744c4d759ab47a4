//! What the backend makes of the answers of the chat-completions endpoint.

use vstd::prelude::*;

use crate::api_v1::chat_completion::ChatCompletionChoice;
use crate::api_v1::chat_completion::ChatCompletionResponse;
use crate::api_v1::chat_completion::FinishReason;
use crate::api_v1::chat_completion_stream::ChatCompletionChunkChoice;
use crate::api_v1::chat_completion_stream::ChatCompletionChunkResponse;
use crate::api_v1::chat_completion_stream::ChoiceDelta;
use crate::api_v1::common::Usage;
use crate::error::ArtificialError;
use crate::error::OpenAiError;
use crate::generic::GenericChatCompletionResponse;
use crate::generic::GenericMessage;
use crate::generic::GenericUsageReport;
use crate::generic::ResponseContent;
use crate::sse::payload_views;

verus! {

/// The usage report for the counts of a response.
pub fn usage_report(usage: &Usage) -> (report: GenericUsageReport)
    ensures
        report.prompt_tokens == usage.prompt_tokens,
        report.completion_tokens == usage.completion_tokens,
        report.total_tokens == usage.total_tokens,
{
    GenericUsageReport {
        prompt_tokens: usage.prompt_tokens as i64,
        completion_tokens: usage.completion_tokens as i64,
        total_tokens: usage.total_tokens as i64,
    }
}

/// The message of the error for a response without choices.
pub open spec fn no_choices_message() -> Seq<char> {
    "response has no choices"@
}

/// The message of the error for a finish reason that a finished answer
/// cannot have.
pub open spec fn unhandled_finish_message(reason: FinishReason) -> Seq<char> {
    match reason {
        FinishReason::Stop => "unhandled finish reason on API: Stop"@,
        FinishReason::Length => "unhandled finish reason on API: Length"@,
        FinishReason::ContentFilter => "unhandled finish reason on API: ContentFilter"@,
        FinishReason::ToolCalls => "unhandled finish reason on API: ToolCalls"@,
    }
}

/// Whether `error` is a format error of the backend that says `message`.
pub open spec fn is_format_error(error: ArtificialError, message: Seq<char>) -> bool {
    error matches ArtificialError::Backend(OpenAiError::Format(text)) && text@ == message
}

/// Turns a response of the chat-completions endpoint into the answer of a
/// chat completion. The last choice decides. Where it stopped of itself, or
/// gives no reason, its message is the finished answer, with the usage of
/// the response. A response without choices is a format error, and so is a
/// choice that was cut short or filtered, or that requests tool calls.
pub fn finish_chat_completion(response: ChatCompletionResponse) -> (r: Result<
    GenericChatCompletionResponse<GenericMessage>,
    ArtificialError,
>)
    ensures
        response.choices@.len() == 0 ==> (r matches Err(e) && is_format_error(
            e,
            no_choices_message(),
        )),
        response.choices@.len() > 0 ==> match response.choices@.last().finish_reason {
            None | Some(FinishReason::Stop) => {
                &&& r matches Ok(answer)
                &&& answer.content matches ResponseContent::Finished(message)
                &&& message@ == response.choices@.last().message@
                &&& answer.usage matches Some(report)
                &&& report.prompt_tokens == response.usage.prompt_tokens
                &&& report.completion_tokens == response.usage.completion_tokens
                &&& report.total_tokens == response.usage.total_tokens
            },
            Some(other) => r matches Err(e) && is_format_error(e, unhandled_finish_message(other)),
        },
{
    let mut response = response;
    let report: GenericUsageReport = usage_report(&response.usage);
    let choice: ChatCompletionChoice = match response.choices.pop() {
        Some(choice) => choice,
        None => {
            return Err(
                ArtificialError::Backend(OpenAiError::Format("response has no choices".to_owned())),
            );
        },
    };
    match choice.finish_reason {
        None | Some(FinishReason::Stop) => Ok(
            GenericChatCompletionResponse {
                content: ResponseContent::Finished(choice.message.into_generic()),
                usage: Some(report),
            },
        ),
        Some(FinishReason::Length) => Err(
            ArtificialError::Backend(
                OpenAiError::Format("unhandled finish reason on API: Length".to_owned()),
            ),
        ),
        Some(FinishReason::ContentFilter) => Err(
            ArtificialError::Backend(
                OpenAiError::Format("unhandled finish reason on API: ContentFilter".to_owned()),
            ),
        ),
        Some(FinishReason::ToolCalls) => Err(
            ArtificialError::Backend(
                OpenAiError::Format("unhandled finish reason on API: ToolCalls".to_owned()),
            ),
        ),
    }
}

/// The pieces of text that the choices carry, in order; a choice without
/// text carries none.
pub open spec fn text_pieces(choices: Seq<ChoiceDelta>) -> Seq<Seq<char>>
    decreases choices.len(),
{
    if choices.len() == 0 {
        Seq::empty()
    } else {
        match choices.last().content {
            Some(text) => text_pieces(choices.drop_last()).push(text),
            None => text_pieces(choices.drop_last()),
        }
    }
}

/// The pieces of text of one chunk, for a consumer that wants nothing but
/// the text: the content of every choice that has one, in order.
pub fn text_deltas(chunk: &ChatCompletionChunkResponse) -> (pieces: Vec<String>)
    ensures
        payload_views(pieces@) == text_pieces(chunk@),
{
    let mut pieces: Vec<String> = Vec::new();
    let ghost choices = chunk@;
    let mut i: usize = 0;
    proof {
        assert(payload_views(pieces@) =~= Seq::empty());
    }
    while i < chunk.choices.len()
        invariant
            i <= chunk.choices.len(),
            choices == chunk@,
            payload_views(pieces@) == text_pieces(choices.take(i as int)),
        decreases chunk.choices.len() - i,
    {
        let choice: &ChatCompletionChunkChoice = &chunk.choices[i];
        proof {
            assert(choices.take(i + 1).drop_last() =~= choices.take(i as int));
            assert(choices.take(i + 1).last() == choice@);
        }
        if let Some(text) = &choice.delta.content {
            let ghost sofar = pieces@;
            pieces.push(text.clone());
            proof {
                assert(payload_views(pieces@) =~= payload_views(sofar).push(text@));
            }
        }
        i = i + 1;
    }
    proof {
        assert(choices.take(i as int) =~= choices);
    }
    pieces
}

} // verus!
