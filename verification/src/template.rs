//! Turning values into chat messages.

use vstd::prelude::*;

use crate::generic::GenericMessage;

verus! {

/// A value that can be turned into a series of chat messages.
pub trait IntoPrompt: Sized {
    /// The kind of message that the value turns into.
    type Message;

    /// Whether `messages` is a series that the value may turn into. Unless
    /// an implementation says more, any series is.
    open spec fn prompts(&self, messages: Seq<Self::Message>) -> bool {
        true
    }

    /// Consumes the value and returns all its messages in order.
    fn into_prompt(self) -> (messages: Vec<Self::Message>)
        ensures
            self.prompts(messages@),
    ;
}

/// A single message is a prompt of its own.
impl IntoPrompt for GenericMessage {
    type Message = GenericMessage;

    open spec fn prompts(&self, messages: Seq<GenericMessage>) -> bool {
        messages == seq![*self]
    }

    fn into_prompt(self) -> (messages: Vec<GenericMessage>) {
        let mut messages: Vec<GenericMessage> = Vec::new();
        messages.push(self);
        proof {
            assert(messages@ =~= seq![self]);
        }
        messages
    }
}

} // verus!
