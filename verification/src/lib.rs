//! A client library for a completion service that answers over HTTP, in one
//! piece or as a stream of server-sent events.
//!
//! The library holds everything that is decided or computed, each function
//! with a contract that is proved of it:
//!
//! * [`retry`] decides, after every send, whether a response is handed on,
//!   whether the request is sent again and after what delay, or whether the
//!   exchange fails; [`rate_limit`] reads the headers that these decisions
//!   and the errors rest on; [`delay`] measures the delays.
//! * [`sse`] cuts the byte stream of a streamed response into frames and
//!   hands out their payloads, wherever the chunks of bytes are cut.
//! * [`tool_calls`] turns the chunks of a streamed chat completion into
//!   events: text, the life of every tool call, and the end of the message;
//!   [`tool_call_laws`] and [`tool_call_fragments`] state what holds of
//!   every such stream of events.
//! * [`provider_chat`] and [`provider_responses`] hold what the backend makes
//!   of the answers of the two endpoints.
//! * [`generic`], [`model`], [`api_v1`], [`error`] and [`outputs`] hold the
//!   shapes; [`prompt`], [`template`] and [`fragments`] build prompts;
//!   [`client`], [`adapter`] and [`openai_client`] hold the settings.
//!
//! Sending, sleeping, reading bodies and the JSON mapping of the shapes are
//! left to the caller.

pub mod adapter;
pub mod api_v1;
pub mod client;
pub mod delay;
pub mod error;
pub mod fragments;
pub mod generic;
pub mod model;
pub mod openai_client;
pub mod outputs;
pub mod prompt;
pub mod provider_chat;
pub mod provider_responses;
pub mod rate_limit;
pub mod retry;
pub mod sse;
pub mod template;
pub mod text;
pub mod tool_call_fragments;
pub mod tool_call_laws;
pub mod tool_calls;
