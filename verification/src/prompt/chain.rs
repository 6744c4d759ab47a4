//! A chain of values that each turn into chat messages.

use vstd::prelude::*;

use crate::template::IntoPrompt;

verus! {

/// The messages gathered so far, in order.
pub struct PromptChain<Message>(Vec<Message>);

impl<Message> View for PromptChain<Message> {
    type V = Seq<Message>;

    closed spec fn view(&self) -> Seq<Message> {
        self.0@
    }
}

impl<Message> Default for PromptChain<Message> {
    fn default() -> (chain: PromptChain<Message>)
        ensures
            chain@ == Seq::<Message>::empty(),
    {
        PromptChain::new()
    }
}

impl<Message> PromptChain<Message> {
    /// A chain without messages.
    pub fn new() -> (chain: PromptChain<Message>)
        ensures
            chain@ == Seq::<Message>::empty(),
    {
        PromptChain(Vec::new())
    }

    /// The chain with the messages of `link` appended.
    pub fn with<P: IntoPrompt<Message = Message>>(self, link: P) -> (chain: PromptChain<Message>)
        ensures
            exists|messages: Seq<Message>|
                link.prompts(messages) && chain@ == self@ + messages,
    {
        let mut gathered: Vec<Message> = self.0;
        let mut added: Vec<Message> = link.into_prompt();
        let ghost messages = added@;
        gathered.append(&mut added);
        proof {
            assert(link.prompts(messages) && gathered@ == self@ + messages);
        }
        PromptChain(gathered)
    }

    /// The messages gathered, in order.
    pub fn build(self) -> (messages: Vec<Message>)
        ensures
            messages@ == self@,
    {
        self.0
    }
}

} // verus!
