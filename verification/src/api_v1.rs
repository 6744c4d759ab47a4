//! The shapes of the completion service's version-one wire format.

pub mod chat_completion;
pub mod chat_completion_stream;
pub mod common;
pub mod responses;
pub mod tools;
