//! Shapes shared by several endpoints.

use vstd::prelude::*;

verus! {

/// How many tokens an exchange took, as the service counts them.
#[derive(Debug, Clone, Copy)]
pub struct Usage {
    pub prompt_tokens: i32,
    pub completion_tokens: i32,
    pub total_tokens: i32,
}

} // verus!
