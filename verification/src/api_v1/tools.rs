//! Tool calls as the service writes them.

use vstd::prelude::*;

use crate::generic::intent_views;
use crate::generic::GenericFunctionCall;
use crate::generic::GenericFunctionCallIntent;
use crate::generic::IntentView;

verus! {

/// The kind of a tool call: only functions exist.
#[derive(Debug, Clone, Copy, PartialEq, Eq, Structural)]
pub enum ToolType {
    Function,
}

/// The function of a tool call, with its arguments as a JSON document.
#[derive(Debug, Clone)]
pub struct ToolCallFunction {
    pub name: String,
    pub arguments: serde_json::Value,
}

/// A tool call on the wire.
#[derive(Debug, Clone)]
pub struct ToolCall {
    pub id: String,
    pub function: ToolCallFunction,
    pub kind: ToolType,
}

impl View for ToolCall {
    type V = IntentView;

    open spec fn view(&self) -> IntentView {
        IntentView { id: self.id@, name: self.function.name@, arguments: self.function.arguments }
    }
}

/// The contents of a list of tool calls, in order.
pub open spec fn tool_call_views(calls: Seq<ToolCall>) -> Seq<IntentView> {
    calls.map_values(|call: ToolCall| call@)
}

impl ToolCallFunction {
    /// The same function, provider-independent.
    pub fn into_generic(self) -> (function: GenericFunctionCall)
        ensures
            function.name == self.name,
            function.arguments == self.arguments,
    {
        GenericFunctionCall { name: self.name, arguments: self.arguments }
    }

    /// The same function, on the wire.
    pub fn from_generic(value: GenericFunctionCall) -> (function: ToolCallFunction)
        ensures
            function.name == value.name,
            function.arguments == value.arguments,
    {
        ToolCallFunction { name: value.name, arguments: value.arguments }
    }
}

impl ToolCall {
    /// The same call, provider-independent.
    pub fn into_generic(self) -> (intent: GenericFunctionCallIntent)
        ensures
            intent.id == self.id,
            intent.function.name == self.function.name,
            intent.function.arguments == self.function.arguments,
            intent@ == self@,
    {
        GenericFunctionCallIntent { id: self.id, function: self.function.into_generic() }
    }

    /// The same call, on the wire, as a call of a function.
    pub fn from_generic(value: GenericFunctionCallIntent) -> (call: ToolCall)
        ensures
            call.id == value.id,
            call.function.name == value.function.name,
            call.function.arguments == value.function.arguments,
            call.kind == ToolType::Function,
            call@ == value@,
    {
        ToolCall {
            id: value.id,
            function: ToolCallFunction::from_generic(value.function),
            kind: ToolType::Function,
        }
    }
}

impl From<GenericFunctionCall> for ToolCallFunction {
    fn from(value: GenericFunctionCall) -> (function: ToolCallFunction) {
        ToolCallFunction::from_generic(value)
    }
}

impl vstd::std_specs::convert::FromSpecImpl<GenericFunctionCall> for ToolCallFunction {
    open spec fn obeys_from_spec() -> bool {
        true
    }

    open spec fn from_spec(value: GenericFunctionCall) -> ToolCallFunction {
        ToolCallFunction { name: value.name, arguments: value.arguments }
    }
}

impl From<ToolCallFunction> for GenericFunctionCall {
    fn from(value: ToolCallFunction) -> (function: GenericFunctionCall) {
        value.into_generic()
    }
}

impl vstd::std_specs::convert::FromSpecImpl<ToolCallFunction> for GenericFunctionCall {
    open spec fn obeys_from_spec() -> bool {
        true
    }

    open spec fn from_spec(value: ToolCallFunction) -> GenericFunctionCall {
        GenericFunctionCall { name: value.name, arguments: value.arguments }
    }
}

impl From<GenericFunctionCallIntent> for ToolCall {
    fn from(value: GenericFunctionCallIntent) -> (call: ToolCall) {
        ToolCall::from_generic(value)
    }
}

impl vstd::std_specs::convert::FromSpecImpl<GenericFunctionCallIntent> for ToolCall {
    open spec fn obeys_from_spec() -> bool {
        true
    }

    open spec fn from_spec(value: GenericFunctionCallIntent) -> ToolCall {
        ToolCall {
            id: value.id,
            function: ToolCallFunction {
                name: value.function.name,
                arguments: value.function.arguments,
            },
            kind: ToolType::Function,
        }
    }
}

impl From<ToolCall> for GenericFunctionCallIntent {
    fn from(value: ToolCall) -> (intent: GenericFunctionCallIntent) {
        value.into_generic()
    }
}

impl vstd::std_specs::convert::FromSpecImpl<ToolCall> for GenericFunctionCallIntent {
    open spec fn obeys_from_spec() -> bool {
        true
    }

    open spec fn from_spec(value: ToolCall) -> GenericFunctionCallIntent {
        GenericFunctionCallIntent {
            id: value.id,
            function: GenericFunctionCall {
                name: value.function.name,
                arguments: value.function.arguments,
            },
        }
    }
}

/// The same calls in the same order, provider-independent.
pub fn tool_calls_into_generic(calls: &Vec<ToolCall>) -> (intents: Vec<GenericFunctionCallIntent>)
    ensures
        intent_views(intents@) == tool_call_views(calls@),
{
    let mut intents: Vec<GenericFunctionCallIntent> = Vec::new();
    let mut i: usize = 0;
    while i < calls.len()
        invariant
            i <= calls.len(),
            intents@.len() == i,
            forall|k: int| 0 <= k < i ==> (#[trigger] intents@[k])@ == calls@[k]@,
        decreases calls.len() - i,
    {
        let call: &ToolCall = &calls[i];
        intents.push(
            GenericFunctionCallIntent {
                id: call.id.clone(),
                function: GenericFunctionCall {
                    name: call.function.name.clone(),
                    arguments: call.function.arguments.clone(),
                },
            },
        );
        i = i + 1;
    }
    proof {
        assert(intent_views(intents@) =~= tool_call_views(calls@));
    }
    intents
}

/// The same calls in the same order, on the wire.
pub fn tool_calls_from_generic(intents: &Vec<GenericFunctionCallIntent>) -> (calls: Vec<ToolCall>)
    ensures
        tool_call_views(calls@) == intent_views(intents@),
        forall|k: int| 0 <= k < calls@.len() ==> (#[trigger] calls@[k]).kind == ToolType::Function,
{
    let mut calls: Vec<ToolCall> = Vec::new();
    let mut i: usize = 0;
    while i < intents.len()
        invariant
            i <= intents.len(),
            calls@.len() == i,
            forall|k: int| 0 <= k < i ==> (#[trigger] calls@[k])@ == intents@[k]@,
            forall|k: int| 0 <= k < i ==> (#[trigger] calls@[k]).kind == ToolType::Function,
        decreases intents.len() - i,
    {
        let intent: &GenericFunctionCallIntent = &intents[i];
        calls.push(
            ToolCall {
                id: intent.id.clone(),
                function: ToolCallFunction {
                    name: intent.function.name.clone(),
                    arguments: intent.function.arguments.clone(),
                },
                kind: ToolType::Function,
            },
        );
        i = i + 1;
    }
    proof {
        assert(tool_call_views(calls@) =~= intent_views(intents@));
    }
    calls
}

} // verus!
