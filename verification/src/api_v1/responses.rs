//! Shapes of the responses endpoint.

use vstd::prelude::*;

verus! {

/// One item of the input of a request.
#[derive(Debug, Clone, Copy, PartialEq, Eq, Structural)]
pub enum ResponseInput {
    Message,
}

/// How hard the model is to think.
#[derive(Debug, Clone, Copy, PartialEq, Eq, Structural)]
pub enum ReasoningEffort {
    Low,
    Medium,
    High,
}

/// The reasoning controls of a request.
#[derive(Debug, Clone, Copy)]
pub struct ReasoningOptions {
    pub effort: Option<ReasoningEffort>,
}

} // verus!
