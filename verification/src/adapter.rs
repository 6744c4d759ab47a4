//! The backend for the completion service, and its builder.

use std::sync::Arc;
use vstd::prelude::*;

use crate::error::ArtificialError;
use crate::openai_client::default_base_url;
use crate::openai_client::OpenAiClient;
use crate::retry::RetryPolicy;
use crate::text::option_text;

verus! {

/// The backend for the completion service: a shared client.
pub struct OpenAiAdapter {
    client: Arc<OpenAiClient>,
}

impl OpenAiAdapter {
    /// The client of the backend.
    pub closed spec fn settings(&self) -> OpenAiClient {
        *self.client
    }

    /// The client of the backend.
    pub fn client(&self) -> (client: &OpenAiClient)
        ensures
            *client == self.settings(),
    {
        &self.client
    }
}

/// Gathers what an [`OpenAiAdapter`] is built from.
pub struct OpenAiAdapterBuilder {
    api_key: Option<String>,
    retry: Option<RetryPolicy>,
}

/// The message of the error for a missing key.
pub open spec fn missing_key_message() -> Seq<char> {
    "missing env variable: `OPENAI_API_KEY`"@
}

impl Default for OpenAiAdapterBuilder {
    fn default() -> (builder: OpenAiAdapterBuilder)
        ensures
            builder.key() is None,
            builder.policy() is None,
    {
        OpenAiAdapterBuilder::new()
    }
}

impl OpenAiAdapterBuilder {
    /// The key that has been supplied, if any.
    pub closed spec fn key(&self) -> Option<Seq<char>> {
        option_text(self.api_key)
    }

    /// The retry policy that has been supplied, if any.
    pub closed spec fn policy(&self) -> Option<RetryPolicy> {
        self.retry
    }

    /// A builder to which nothing has been supplied.
    pub fn new() -> (builder: OpenAiAdapterBuilder)
        ensures
            builder.key() is None,
            builder.policy() is None,
    {
        OpenAiAdapterBuilder { api_key: None, retry: None }
    }

    /// A builder with the key that was found, if one was found, where keys
    /// are kept.
    pub fn new_with_key(api_key: Option<String>) -> (builder: OpenAiAdapterBuilder)
        ensures
            builder.key() == option_text(api_key),
            builder.policy() is None,
    {
        OpenAiAdapterBuilder { api_key, retry: None }
    }

    /// The builder with `retry` for the retry policy.
    pub fn with_retry_policy(self, retry: RetryPolicy) -> (builder: OpenAiAdapterBuilder)
        ensures
            builder.key() == self.key(),
            builder.policy() == Some(retry),
    {
        OpenAiAdapterBuilder { api_key: self.api_key, retry: Some(retry) }
    }

    /// The client that `build` wraps once an HTTP client is at hand: with
    /// the builder's key, the default base URL, and the builder's retry
    /// policy or the default one. A builder without key gives the error
    /// `Invalid` with [`missing_key_message`].
    pub fn client_for(self, http: reqwest::Client) -> (r: Result<OpenAiClient, ArtificialError>)
        ensures
            match self.key() {
                Some(key) => {
                    &&& r matches Ok(client)
                    &&& client.key() == key
                    &&& client.transport() == http
                    &&& client.base_url() == default_base_url()
                    &&& match self.policy() {
                        Some(retry) => client.policy() == retry,
                        None => client.policy().is_default(),
                    }
                },
                None => r matches Err(ArtificialError::Invalid(message)) && message@
                    == missing_key_message(),
            },
    {
        match self.api_key {
            Some(api_key) => {
                let client = OpenAiClient::with_http(api_key, http, None);
                match self.retry {
                    Some(retry) => Ok(client.with_retry_policy(retry)),
                    None => Ok(client),
                }
            },
            None => Err(ArtificialError::Invalid("missing env variable: `OPENAI_API_KEY`".to_owned())),
        }
    }

    /// The adapter for the builder's key and retry policy, with a default
    /// HTTP client. A builder without key gives the error `Invalid` with
    /// [`missing_key_message`]; an HTTP client that cannot be built gives a
    /// backend error.
    pub fn build(self) -> (r: Result<OpenAiAdapter, ArtificialError>)
        ensures
            match self.key() {
                Some(key) => match r {
                    Ok(adapter) => {
                        &&& adapter.settings().key() == key
                        &&& adapter.settings().base_url() == default_base_url()
                        &&& match self.policy() {
                            Some(retry) => adapter.settings().policy() == retry,
                            None => adapter.settings().policy().is_default(),
                        }
                    },
                    Err(e) => e is Backend,
                },
                None => r matches Err(ArtificialError::Invalid(message)) && message@
                    == missing_key_message(),
            },
    {
        let api_key: String = match self.api_key {
            Some(api_key) => api_key,
            None => {
                return Err(
                    ArtificialError::Invalid("missing env variable: `OPENAI_API_KEY`".to_owned()),
                );
            },
        };
        let client: OpenAiClient = match OpenAiClient::new(api_key) {
            Ok(client) => client,
            Err(error) => {
                return Err(ArtificialError::Backend(error));
            },
        };
        let client: OpenAiClient = match self.retry {
            Some(retry) => client.with_retry_policy(retry),
            None => client,
        };
        Ok(OpenAiAdapter { client: Arc::new(client) })
    }
}

} // verus!
