//! The settings of the HTTP client for the completion service.
//!
//! Sending requests is left to the caller; what is sent where, and how
//! often, is decided here.

use vstd::prelude::*;

use crate::error::OpenAiError;
use crate::retry::RetryExecutor;
use crate::retry::RetryPolicy;
use crate::text::concat_text;

verus! {

/// `reqwest::Client`: the HTTP client with its connection pool. It is
/// carried through unopened.
#[verifier::external_type_specification]
#[verifier::external_body]
pub struct ExHttpClient(reqwest::Client);

/// `reqwest::Client::clone`: a second handle on the same connection pool.
/// Nothing is stated of it.
pub assume_specification[ <reqwest::Client as Clone>::clone ](
    client: &reqwest::Client,
) -> reqwest::Client
;

/// The base of the service's URLs where none is given.
pub open spec fn default_base_url() -> Seq<char> {
    "https://api.openai.com/v1"@
}

/// Seconds after which a request of the default HTTP client times out.
pub const DEFAULT_TIMEOUT_SECS: u64 = 30;

/// Builds a `reqwest::Client` whose requests time out after `timeout_secs`
/// seconds, by `reqwest::ClientBuilder::build`.
#[verifier::external_body]
fn build_http_client(timeout_secs: u64) -> Result<reqwest::Client, reqwest::Error> {
    reqwest::Client::builder().timeout(std::time::Duration::from_secs(timeout_secs)).build()
}

/// What is needed to talk to the completion service: the key, the HTTP
/// client, the base of the URLs and the retry policy.
#[derive(Clone)]
pub struct OpenAiClient {
    api_key: String,
    http: reqwest::Client,
    base: String,
    retry: RetryPolicy,
}

impl OpenAiClient {
    /// The key that requests are signed with.
    pub closed spec fn key(&self) -> Seq<char> {
        self.api_key@
    }

    /// The base of the service's URLs.
    pub closed spec fn base_url(&self) -> Seq<char> {
        self.base@
    }

    /// The retry policy.
    pub closed spec fn policy(&self) -> RetryPolicy {
        self.retry
    }

    /// The HTTP client.
    pub closed spec fn transport(&self) -> reqwest::Client {
        self.http
    }

    /// A client with a default HTTP client, whose requests time out after
    /// thirty seconds, the default base URL and the default retry policy.
    /// It fails where the HTTP client cannot be built.
    pub fn new(api_key: String) -> (r: Result<OpenAiClient, OpenAiError>)
        ensures
            match r {
                Ok(client) => {
                    &&& client.key() == api_key@
                    &&& client.base_url() == default_base_url()
                    &&& client.policy().is_default()
                },
                Err(e) => e is Http,
            },
    {
        match build_http_client(DEFAULT_TIMEOUT_SECS) {
            Ok(http) => Ok(OpenAiClient::with_http(api_key, http, None)),
            Err(error) => Err(OpenAiError::Http(error)),
        }
    }

    /// A client with the given HTTP client, the given base URL or the
    /// default one, and the default retry policy.
    pub fn with_http(api_key: String, http: reqwest::Client, base_url: Option<String>) -> (client:
        OpenAiClient)
        ensures
            client.key() == api_key@,
            client.transport() == http,
            client.base_url() == match base_url {
                Some(base) => base@,
                None => default_base_url(),
            },
            client.policy().is_default(),
    {
        let base: String = match base_url {
            Some(base) => base,
            None => "https://api.openai.com/v1".to_owned(),
        };
        OpenAiClient { api_key, http, base, retry: RetryPolicy::default() }
    }

    /// The client with `retry` for its retry policy.
    pub fn with_retry_policy(self, retry: RetryPolicy) -> (client: OpenAiClient)
        ensures
            client.policy() == retry,
            client.key() == self.key(),
            client.base_url() == self.base_url(),
            client.transport() == self.transport(),
    {
        OpenAiClient { api_key: self.api_key, http: self.http, base: self.base, retry }
    }

    /// The HTTP client.
    pub fn http(&self) -> (http: &reqwest::Client)
        ensures
            *http == self.transport(),
    {
        &self.http
    }

    /// The retry policy.
    pub fn retry_policy(&self) -> (retry: RetryPolicy)
        ensures
            retry == self.policy(),
    {
        self.retry
    }

    /// An executor for one logical request, about to make its first
    /// attempt under the client's retry policy.
    pub fn executor(&self) -> (executor: RetryExecutor)
        ensures
            executor.policy == self.policy(),
            executor.attempt == 0,
    {
        RetryExecutor::new(self.retry)
    }

    /// The URL of the chat-completions endpoint.
    pub fn chat_completions_url(&self) -> (url: String)
        ensures
            url@ == self.base_url() + "/chat/completions"@,
    {
        concat_text(self.base.as_str(), "/chat/completions")
    }

    /// The URL of the responses endpoint.
    pub fn responses_url(&self) -> (url: String)
        ensures
            url@ == self.base_url() + "/responses"@,
    {
        concat_text(self.base.as_str(), "/responses")
    }

    /// The value of the authorization header: the key as a bearer token.
    pub fn authorization(&self) -> (value: String)
        ensures
            value@ == "Bearer "@ + self.key(),
    {
        concat_text("Bearer ", self.api_key.as_str())
    }
}

} // verus!
