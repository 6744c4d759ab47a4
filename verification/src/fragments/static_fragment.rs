//! A fragment that says the same text every time.

use vstd::prelude::*;

use crate::generic::GenericMessage;
use crate::generic::GenericRole;
use crate::template::IntoPrompt;
use crate::text::option_text;

verus! {

/// A borrowed text together with the role that says it.
pub struct StaticFragment<'a>((&'a str, GenericRole));

impl<'a> StaticFragment<'a> {
    /// The text of the fragment.
    pub closed spec fn text(&self) -> Seq<char> {
        self.0.0@
    }

    /// The role that says the text.
    pub closed spec fn role(&self) -> GenericRole {
        self.0.1
    }

    /// A fragment in which `role` says `value`.
    pub fn new(value: &'a str, role: GenericRole) -> (fragment: StaticFragment<'a>)
        ensures
            fragment.text() == value@,
            fragment.role() == role,
    {
        StaticFragment((value, role))
    }

    /// A fragment in which the system says `value`.
    pub fn from_text(value: &'a str) -> (fragment: StaticFragment<'a>)
        ensures
            fragment.text() == value@,
            fragment.role() == GenericRole::System,
    {
        StaticFragment((value, GenericRole::System))
    }
}

impl<'a> From<&'a str> for StaticFragment<'a> {
    fn from(value: &'a str) -> (fragment: StaticFragment<'a>) {
        StaticFragment((value, GenericRole::System))
    }
}

impl<'a> vstd::std_specs::convert::FromSpecImpl<&'a str> for StaticFragment<'a> {
    open spec fn obeys_from_spec() -> bool {
        true
    }

    closed spec fn from_spec(value: &'a str) -> StaticFragment<'a> {
        StaticFragment((value, GenericRole::System))
    }
}

impl<'a> IntoPrompt for StaticFragment<'a> {
    type Message = GenericMessage;

    /// One message, in which the fragment's role says the fragment's text.
    open spec fn prompts(&self, messages: Seq<GenericMessage>) -> bool {
        &&& messages.len() == 1
        &&& messages[0].role == self.role()
        &&& option_text(messages[0].content) == Some(self.text())
        &&& messages[0].name is None
        &&& messages[0].tool_calls is None
        &&& messages[0].tool_call_id is None
    }

    fn into_prompt(self) -> (messages: Vec<GenericMessage>) {
        let mut messages: Vec<GenericMessage> = Vec::new();
        messages.push(GenericMessage::new(self.0.0.to_owned(), self.0.1));
        messages
    }
}

} // verus!
