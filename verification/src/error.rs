//! The errors that the client surfaces.

use vstd::prelude::*;

use crate::delay::Delay;
use crate::text::concat_text;
use crate::text::option_text;

verus! {

/// `reqwest::Error`: why a request produced no response. It is carried
/// through unopened.
#[verifier::external_type_specification]
#[verifier::external_body]
pub struct ExTransportError(reqwest::Error);

/// `serde_json::Error`: why a text is no JSON document of the expected
/// shape. It is carried through unopened.
#[verifier::external_type_specification]
#[verifier::external_body]
pub struct ExJsonError(serde_json::Error);

/// What the rate-limit headers of a response said.
///
/// The two reset fields are kept as the service wrote them.
#[derive(Debug, Clone, PartialEq, Eq)]
pub struct OpenAiRateLimitHeaders {
    pub limit_requests: Option<u32>,
    pub remaining_requests: Option<u32>,
    pub reset_requests: Option<String>,
    pub limit_tokens: Option<u32>,
    pub remaining_tokens: Option<u32>,
    pub reset_tokens: Option<String>,
}

/// The mathematical content of [`OpenAiRateLimitHeaders`].
pub struct RateLimitSnapshot {
    pub limit_requests: Option<u32>,
    pub remaining_requests: Option<u32>,
    pub reset_requests: Option<Seq<char>>,
    pub limit_tokens: Option<u32>,
    pub remaining_tokens: Option<u32>,
    pub reset_tokens: Option<Seq<char>>,
}

impl View for OpenAiRateLimitHeaders {
    type V = RateLimitSnapshot;

    open spec fn view(&self) -> RateLimitSnapshot {
        RateLimitSnapshot {
            limit_requests: self.limit_requests,
            remaining_requests: self.remaining_requests,
            reset_requests: option_text(self.reset_requests),
            limit_tokens: self.limit_tokens,
            remaining_tokens: self.remaining_tokens,
            reset_tokens: option_text(self.reset_tokens),
        }
    }
}

/// Every way in which a call to the completion service can fail.
#[derive(Debug)]
pub enum OpenAiError {
    /// The request never produced a response.
    Http(reqwest::Error),
    /// A JSON document could not be written or read.
    Serde(serde_json::Error),
    /// The service kept answering "too many requests" until the retries
    /// ran out.
    RateLimited {
        status: u16,
        body: String,
        retry_after: Option<Delay>,
        reset_at: Option<String>,
        headers: OpenAiRateLimitHeaders,
    },
    /// The service answered with another status that is no success.
    Api { status: u16, body: String },
    /// The response did not have the expected shape.
    Format(String),
    /// Anything else, described in words.
    Unknown(String),
}

/// The error type of the provider-independent layer.
#[derive(Debug)]
pub enum ArtificialError {
    /// No backend has been registered for the provider.
    BackendNotConfigured { provider: &'static str },
    /// The backend does not support the model.
    ModelNotSupported { provider: &'static str, model: &'static str },
    /// A JSON payload could not be written or read.
    Serialization(serde_json::Error),
    /// An error of the backend that fits no other variant.
    Backend(OpenAiError),
    /// The request cannot be sent as it is.
    InvalidRequest(String),
    /// A value is not acceptable.
    Invalid(String),
}

impl ArtificialError {
    /// Wraps an error of the backend.
    pub fn from_backend(value: OpenAiError) -> (e: ArtificialError)
        ensures
            e == ArtificialError::Backend(value),
    {
        ArtificialError::Backend(value)
    }
}

impl From<OpenAiError> for ArtificialError {
    fn from(value: OpenAiError) -> (e: ArtificialError) {
        ArtificialError::from_backend(value)
    }
}

impl vstd::std_specs::convert::FromSpecImpl<OpenAiError> for ArtificialError {
    open spec fn obeys_from_spec() -> bool {
        true
    }

    open spec fn from_spec(value: OpenAiError) -> ArtificialError {
        ArtificialError::Backend(value)
    }
}

/// The words in which an error of the UTF-8 decoder describes itself.
pub uninterp spec fn utf8_error_words(error: std::str::Utf8Error) -> Seq<char>;

/// Calls `to_string` on a `std::str::Utf8Error`: the words in which the
/// error describes itself, which depend on the error alone.
#[verifier::external_body]
fn utf8_error_text(error: &std::str::Utf8Error) -> (words: String)
    ensures
        words@ == utf8_error_words(*error),
{
    error.to_string()
}

/// The message of the error for bytes that are not UTF-8: `UTF8 error: `
/// and the decoder's words.
pub open spec fn utf8_error_message(error: std::str::Utf8Error) -> Seq<char> {
    "UTF8 error: "@ + utf8_error_words(error)
}

impl OpenAiError {
    /// The error for bytes that are not UTF-8: `Unknown`, with the message
    /// that [`utf8_error_message`] describes.
    pub fn from_utf8_error(value: std::str::Utf8Error) -> (e: OpenAiError)
        ensures
            e matches OpenAiError::Unknown(message) && message@ == utf8_error_message(value),
    {
        let detail: String = utf8_error_text(&value);
        OpenAiError::Unknown(concat_text("UTF8 error: ", detail.as_str()))
    }
}

} // verus!
