//! Shapes for the answers that prompts ask for.

use vstd::prelude::*;

verus! {

/// Whether the model succeeded at what it was asked.
#[derive(Debug, Clone, Copy, PartialEq, Eq, Structural)]
pub enum ThinkStatus {
    Succeed,
    Error,
}

} // verus!
