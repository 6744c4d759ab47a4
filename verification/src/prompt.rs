//! Helpers for building prompts.

pub mod builder;
pub mod chain;
