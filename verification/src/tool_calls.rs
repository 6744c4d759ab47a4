//! Reconstructing tool calls from the chunks of a streamed response.
//!
//! A streamed response delivers each tool call in pieces that are addressed
//! by a small index. The interpreter keeps one accumulator per index, in the
//! order in which the indices were first seen, and turns every chunk into
//! the events that it gives rise to.

use vstd::prelude::*;
use vstd::string::StringExecFns;

use crate::api_v1::chat_completion::FinishReason;
use crate::api_v1::chat_completion_stream::fragment_views;
use crate::api_v1::chat_completion_stream::ChatCompletionChunkChoice;
use crate::api_v1::chat_completion_stream::ChatCompletionChunkResponse;
use crate::api_v1::chat_completion_stream::ChoiceDelta;
use crate::api_v1::chat_completion_stream::ToolCallDelta;
use crate::api_v1::chat_completion_stream::ToolCallFragment;
use crate::error::ArtificialError;
use crate::generic::event_views;
use crate::generic::EventView;
use crate::generic::GenericFunctionCall;
use crate::generic::GenericFunctionCallIntent;
use crate::generic::StreamEvent;
use crate::text::ascii_text;
use crate::text::concat_text;
use crate::text::decimal_numeral;
use crate::text::decimal_string;
use crate::text::option_text;

verus! {

/// The JSON document that a text writes, where it writes one, and the
/// parser's error where it writes none.
pub uninterp spec fn json_document(text: Seq<char>) -> Result<serde_json::Value, serde_json::Error>;

/// Whether `text` writes the JSON document `document`.
pub open spec fn writes(text: Seq<char>, document: serde_json::Value) -> bool {
    json_document(text) == Ok::<serde_json::Value, serde_json::Error>(document)
}

/// The words in which an error of the JSON parser describes itself.
pub uninterp spec fn json_error_words(error: serde_json::Error) -> Seq<char>;

/// Calls `to_string` on a `serde_json::Error`: the words in which the error
/// describes itself, which depend on the error alone.
#[verifier::external_body]
fn json_error_text(error: &serde_json::Error) -> (words: String)
    ensures
        words@ == json_error_words(*error),
{
    error.to_string()
}

/// Calls `serde_json::from_str` for a `serde_json::Value`: the document
/// that the text writes, or the parser's error.
#[verifier::external_body]
pub(crate) fn parse_json(text: &str) -> (r: Result<serde_json::Value, serde_json::Error>)
    ensures
        r == json_document(text@),
{
    serde_json::from_str::<serde_json::Value>(text)
}

/// What has been gathered of one tool call.
#[derive(Debug)]
pub struct ToolCallAccumulator {
    pub index: usize,
    pub id: Option<String>,
    pub name: Option<String>,
    pub arguments: String,
}

/// The mathematical content of a [`ToolCallAccumulator`].
pub struct CallState {
    pub index: usize,
    pub id: Option<Seq<char>>,
    pub name: Option<Seq<char>>,
    pub arguments: Seq<char>,
}

impl View for ToolCallAccumulator {
    type V = CallState;

    open spec fn view(&self) -> CallState {
        CallState {
            index: self.index,
            id: option_text(self.id),
            name: option_text(self.name),
            arguments: self.arguments@,
        }
    }
}

/// The contents of a list of accumulators, in order.
pub open spec fn call_views(calls: Seq<ToolCallAccumulator>) -> Seq<CallState> {
    calls.map_values(|call: ToolCallAccumulator| call@)
}

/// The state of the interpreter: the accumulators of the tool calls that
/// are under way, in the order in which their indices were first seen, and
/// whether the message has ended.
pub struct InterpreterState {
    pub calls: Seq<CallState>,
    pub finished: bool,
}

/// The accumulators after some pieces, and the events that the pieces gave
/// rise to.
pub struct Progress {
    pub calls: Seq<CallState>,
    pub events: Seq<EventView>,
}

/// One accumulator after a piece, and the events that the piece gave rise
/// to.
pub struct Absorbed {
    pub call: CallState,
    pub events: Seq<EventView>,
}

/// The events of a completion, and whether it broke off at arguments that
/// are no JSON document.
pub struct Completion {
    pub events: Seq<EventView>,
    pub failed: bool,
}

/// The state after a step, the events that the step emitted, and whether
/// it failed.
pub struct Step {
    pub state: InterpreterState,
    pub events: Seq<EventView>,
    pub failed: bool,
}

/// Where the accumulator for `index` stands in `calls`; the length of
/// `calls` where there is none.
pub open spec fn slot(calls: Seq<CallState>, index: usize) -> int
    decreases calls.len(),
{
    if calls.len() == 0 {
        0
    } else if calls[0].index == index {
        0
    } else {
        1 + slot(calls.drop_first(), index)
    }
}

/// No index has two accumulators.
pub open spec fn distinct_indices(calls: Seq<CallState>) -> bool {
    forall|i: int, j: int|
        0 <= i < j < calls.len() ==> (#[trigger] calls[i]).index != (#[trigger] calls[j]).index
}

/// An accumulator that has seen nothing yet.
pub open spec fn fresh_call(index: usize) -> CallState {
    CallState { index, id: None, name: None, arguments: Seq::empty() }
}

/// What one piece does to the accumulator of its index.
///
/// An identifier is remembered, and announced by a start event if it is the
/// first for this call. Then a name is remembered, and announced by a start
/// event of its own if it is the first. Then argument text is appended, and
/// passed on as a delta unless it is empty.
pub open spec fn absorb(call: CallState, piece: ToolCallFragment) -> Absorbed {
    let with_id = if piece.id is Some {
        CallState { id: piece.id, ..call }
    } else {
        call
    };
    let with_name = if piece.name is Some {
        CallState { name: piece.name, ..with_id }
    } else {
        with_id
    };
    let with_arguments = match piece.arguments {
        Some(text) => CallState { arguments: with_name.arguments + text, ..with_name },
        None => with_name,
    };
    let id_events = if piece.id is Some && call.id is None {
        seq![EventView::ToolCallStart { index: call.index, id: piece.id, name: call.name }]
    } else {
        Seq::empty()
    };
    let name_events = if piece.name is Some && with_id.name is None {
        seq![EventView::ToolCallStart { index: call.index, id: with_id.id, name: piece.name }]
    } else {
        Seq::empty()
    };
    let argument_events = match piece.arguments {
        Some(text) => if text.len() > 0 {
            seq![EventView::ToolCallArgumentsDelta { index: call.index, fragment: text }]
        } else {
            Seq::empty()
        },
        None => Seq::empty(),
    };
    Absorbed { call: with_arguments, events: id_events + name_events + argument_events }
}

/// What one piece does to the accumulators: the one for the piece's index
/// absorbs it, and is appended first where the index is new.
pub open spec fn apply_fragment(calls: Seq<CallState>, piece: ToolCallFragment) -> Progress {
    let at = slot(calls, piece.index);
    if at < calls.len() {
        let effect = absorb(calls[at], piece);
        Progress { calls: calls.update(at, effect.call), events: effect.events }
    } else {
        let effect = absorb(fresh_call(piece.index), piece);
        Progress { calls: calls.push(effect.call), events: effect.events }
    }
}

/// What a list of pieces does to the accumulators, piece by piece.
pub open spec fn apply_fragments(calls: Seq<CallState>, pieces: Seq<ToolCallFragment>) -> Progress
    decreases pieces.len(),
{
    if pieces.len() == 0 {
        Progress { calls, events: Seq::empty() }
    } else {
        let before = apply_fragments(calls, pieces.drop_last());
        let last = apply_fragment(before.calls, pieces.last());
        Progress { calls: last.calls, events: before.events + last.events }
    }
}

/// The identifier that a call gets when the stream never gave it one.
pub open spec fn default_call_id(index: usize) -> Seq<char> {
    "toolcall-"@ + ascii_text(decimal_numeral(index as nat))
}

/// The event that completes a call whose arguments parsed as `arguments`.
pub open spec fn completion(call: CallState, arguments: serde_json::Value) -> EventView {
    EventView::ToolCallComplete {
        index: call.index,
        id: match call.id {
            Some(id) => id,
            None => default_call_id(call.index),
        },
        name: match call.name {
            Some(name) => name,
            None => "tool"@,
        },
        arguments,
    }
}

/// The completion of all calls, in the order in which their indices were
/// first seen. It breaks off at the first call whose argument text is no
/// JSON document.
pub open spec fn complete_all(calls: Seq<CallState>) -> Completion
    decreases calls.len(),
{
    if calls.len() == 0 {
        Completion { events: Seq::empty(), failed: false }
    } else {
        let before = complete_all(calls.drop_last());
        if before.failed {
            before
        } else {
            match json_document(calls.last().arguments) {
                Ok(arguments) => Completion {
                    events: before.events.push(completion(calls.last(), arguments)),
                    failed: false,
                },
                Err(_) => Completion { events: before.events, failed: true },
            }
        }
    }
}

/// The event for a piece of text, unless the piece is absent or empty.
pub open spec fn text_events(content: Option<Seq<char>>) -> Seq<EventView> {
    match content {
        Some(text) => if text.len() > 0 {
            seq![EventView::TextDelta(text)]
        } else {
            Seq::empty()
        },
        None => Seq::empty(),
    }
}

/// What one choice of a chunk does.
///
/// Only the choice of index zero counts, and nothing counts once the
/// message has ended. The text comes first, then the pieces of tool calls,
/// then the finish reason. When the model stopped to have tools called, all
/// calls are completed and the message ends, unless the completion fails.
/// For any other reason the message ends at once, and calls that are under
/// way are left as they are.
pub open spec fn choice_step(state: InterpreterState, choice: ChoiceDelta) -> Step {
    if state.finished || choice.index != 0 {
        Step { state, events: Seq::empty(), failed: false }
    } else {
        let progress = apply_fragments(state.calls, choice.tool_calls);
        let events = text_events(choice.content) + progress.events;
        match choice.finish_reason {
            None => Step {
                state: InterpreterState { calls: progress.calls, finished: false },
                events,
                failed: false,
            },
            Some(FinishReason::ToolCalls) => {
                let done = complete_all(progress.calls);
                Step {
                    state: InterpreterState { calls: Seq::empty(), finished: true },
                    events: if done.failed {
                        events + done.events
                    } else {
                        (events + done.events).push(EventView::MessageEnd)
                    },
                    failed: done.failed,
                }
            },
            Some(_) => Step {
                state: InterpreterState { calls: progress.calls, finished: true },
                events: events.push(EventView::MessageEnd),
                failed: false,
            },
        }
    }
}

/// What the choices of one chunk do, choice by choice.
pub open spec fn chunk_step(state: InterpreterState, choices: Seq<ChoiceDelta>) -> Step
    decreases choices.len(),
{
    if choices.len() == 0 {
        Step { state, events: Seq::empty(), failed: false }
    } else {
        let before = chunk_step(state, choices.drop_last());
        let last = choice_step(before.state, choices.last());
        Step {
            state: last.state,
            events: before.events + last.events,
            failed: before.failed || last.failed,
        }
    }
}

/// What a sequence of chunks does, chunk by chunk.
pub open spec fn stream_step(state: InterpreterState, chunks: Seq<Seq<ChoiceDelta>>) -> Step
    decreases chunks.len(),
{
    if chunks.len() == 0 {
        Step { state, events: Seq::empty(), failed: false }
    } else {
        let before = stream_step(state, chunks.drop_last());
        let last = chunk_step(before.state, chunks.last());
        Step {
            state: last.state,
            events: before.events + last.events,
            failed: before.failed || last.failed,
        }
    }
}

/// The state before the first chunk.
pub open spec fn initial_state() -> InterpreterState {
    InterpreterState { calls: Seq::empty(), finished: false }
}

/// The message of the error for argument text that is no JSON document:
/// `invalid tool arguments JSON: ` and the parser's words.
pub open spec fn argument_error_message(error: serde_json::Error) -> Seq<char> {
    "invalid tool arguments JSON: "@ + json_error_words(error)
}

/// The error for the argument text `text`, which is no JSON document:
/// `Invalid`, with the message for the parser's error.
pub open spec fn is_argument_error(error: ArtificialError, text: Seq<char>) -> bool {
    &&& error matches ArtificialError::Invalid(message)
    &&& json_document(text) matches Err(refusal)
    &&& message@ == argument_error_message(refusal)
}

/// The argument text on which the completion of `calls` breaks off: that
/// of the first call whose text is no JSON document.
pub open spec fn failing_arguments(calls: Seq<CallState>) -> Seq<char>
    decreases calls.len(),
{
    if calls.len() == 0 {
        Seq::empty()
    } else if complete_all(calls.drop_last()).failed {
        failing_arguments(calls.drop_last())
    } else {
        calls.last().arguments
    }
}

/// The argument text on which one choice fails, where it fails.
pub open spec fn choice_failure(state: InterpreterState, choice: ChoiceDelta) -> Seq<char> {
    failing_arguments(apply_fragments(state.calls, choice.tool_calls).calls)
}

/// The argument text on which one chunk fails, where it fails.
pub open spec fn chunk_failure(state: InterpreterState, choices: Seq<ChoiceDelta>) -> Seq<char>
    decreases choices.len(),
{
    if choices.len() == 0 {
        Seq::empty()
    } else if chunk_step(state, choices.drop_last()).failed {
        chunk_failure(state, choices.drop_last())
    } else {
        choice_failure(chunk_step(state, choices.drop_last()).state, choices.last())
    }
}

/// The interpreter of the chunks of one streamed response.
#[derive(Debug)]
pub struct DeltaInterpreter {
    calls: Vec<ToolCallAccumulator>,
    finished: bool,
}

/// What one chunk gave rise to: the events, in order, and the error that
/// ended the stream, if one did. The events stand even where there is an
/// error.
#[derive(Debug)]
pub struct ChunkOutcome {
    pub events: Vec<StreamEvent>,
    pub error: Option<ArtificialError>,
}

impl View for DeltaInterpreter {
    type V = InterpreterState;

    closed spec fn view(&self) -> InterpreterState {
        InterpreterState { calls: call_views(self.calls@), finished: self.finished }
    }
}

/// The slot of an index is the first position whose accumulator has it.
proof fn lemma_slot(calls: Seq<CallState>, index: usize, at: int)
    requires
        0 <= at <= calls.len(),
        forall|k: int| 0 <= k < at ==> (#[trigger] calls[k]).index != index,
        at < calls.len() ==> calls[at].index == index,
    ensures
        slot(calls, index) == at,
    decreases at,
{
    if at > 0 {
        let rest = calls.drop_first();
        assert(calls[0].index != index);
        assert forall|k: int| 0 <= k < at - 1 implies (#[trigger] rest[k]).index != index by {
            assert(rest[k] == calls[k + 1]);
        }
        lemma_slot(rest, index, at - 1);
    }
}

/// A completion that broke off stays as it is, whatever calls follow.
proof fn lemma_complete_all_stays_failed(calls: Seq<CallState>, upto: int)
    requires
        0 <= upto <= calls.len(),
        complete_all(calls.take(upto)).failed,
    ensures
        complete_all(calls) == complete_all(calls.take(upto)),
        failing_arguments(calls) == failing_arguments(calls.take(upto)),
    decreases calls.len() - upto,
{
    if upto < calls.len() {
        assert(calls.take(upto + 1).drop_last() =~= calls.take(upto));
        lemma_complete_all_stays_failed(calls, upto + 1);
    } else {
        assert(calls.take(upto) =~= calls);
    }
}

/// A copy of an optional text.
fn clone_text(text: &Option<String>) -> (copy: Option<String>)
    ensures
        copy == *text,
{
    match text {
        Some(s) => Some(s.clone()),
        None => None,
    }
}

/// The event that completes `call`, given what parsing its argument text
/// came to: the completion with the parsed arguments, with `tool` for a
/// name that never came and `toolcall-` and the index for an identifier
/// that never came; or the error for arguments that are no JSON document.
pub fn complete_call(
    call: &ToolCallAccumulator,
    parsed: Result<serde_json::Value, serde_json::Error>,
) -> (r: Result<StreamEvent, ArtificialError>)
    ensures
        match parsed {
            Ok(arguments) => r matches Ok(event) && event@ == completion(call@, arguments),
            Err(refusal) => r matches Err(ArtificialError::Invalid(message)) && message@
                == argument_error_message(refusal),
        },
{
    match parsed {
        Ok(arguments) => {
            let name: String = match &call.name {
                Some(name) => name.clone(),
                None => "tool".to_owned(),
            };
            let id: String = match &call.id {
                Some(id) => id.clone(),
                None => {
                    let number: String = decimal_string(call.index);
                    concat_text("toolcall-", number.as_str())
                },
            };
            let intent = GenericFunctionCallIntent {
                id,
                function: GenericFunctionCall { name, arguments },
            };
            Ok(StreamEvent::ToolCallComplete { index: call.index, intent })
        },
        Err(error) => {
            let detail: String = json_error_text(&error);
            let message: String = concat_text("invalid tool arguments JSON: ", detail.as_str());
            Err(ArtificialError::Invalid(message))
        },
    }
}

/// Appends `event` to `events`.
fn emit(events: &mut Vec<StreamEvent>, event: StreamEvent)
    ensures
        event_views(final(events)@) == event_views(old(events)@).push(event@),
{
    events.push(event);
    proof {
        assert(event_views(events@) =~= event_views(old(events)@).push(event@));
    }
}

/// Lets `entry` absorb `piece` and appends the events to `events`.
fn absorb_piece(
    entry: &mut ToolCallAccumulator,
    piece: &ToolCallDelta,
    events: &mut Vec<StreamEvent>,
)
    requires
        old(entry).index == piece.index,
    ensures
        final(entry)@ == absorb(old(entry)@, piece@).call,
        event_views(final(events)@) == event_views(old(events)@) + absorb(
            old(entry)@,
            piece@,
        ).events,
{
    if let Some(id) = &piece.id {
        if entry.id.is_none() {
            let name: Option<String> = clone_text(&entry.name);
            emit(events, StreamEvent::ToolCallStart { index: piece.index, id: Some(id.clone()), name });
        }
        entry.id = Some(id.clone());
    }
    if let Some(function) = &piece.function {
        if let Some(name) = &function.name {
            if entry.name.is_none() {
                let id: Option<String> = clone_text(&entry.id);
                emit(
                    events,
                    StreamEvent::ToolCallStart { index: piece.index, id, name: Some(name.clone()) },
                );
            }
            entry.name = Some(name.clone());
        }
        if let Some(arguments) = &function.arguments {
            entry.arguments.append(arguments.as_str());
            if !arguments.as_str().is_empty() {
                emit(
                    events,
                    StreamEvent::ToolCallArgumentsDelta {
                        index: piece.index,
                        arguments_fragment: arguments.clone(),
                    },
                );
            }
        }
    }
    proof {
        assert(event_views(events@) =~= event_views(old(events)@) + absorb(
            old(entry)@,
            piece@,
        ).events);
    }
}

/// Completes the calls in order and appends the events to `events`, up to
/// the first call whose arguments are no JSON document.
fn complete_calls(calls: &Vec<ToolCallAccumulator>, events: &mut Vec<StreamEvent>) -> (error:
    Option<ArtificialError>)
    ensures
        event_views(final(events)@) == event_views(old(events)@) + complete_all(
            call_views(calls@),
        ).events,
        error is Some <==> complete_all(call_views(calls@)).failed,
        error matches Some(e) ==> is_argument_error(e, failing_arguments(call_views(calls@))),
{
    let ghost before = event_views(events@);
    let ghost all = call_views(calls@);
    let mut i: usize = 0;
    proof {
        assert(before + Seq::<EventView>::empty() =~= before);
    }
    while i < calls.len()
        invariant
            i <= calls.len(),
            all == call_views(calls@),
            before == event_views(old(events)@),
            !complete_all(all.take(i as int)).failed,
            event_views(events@) == before + complete_all(all.take(i as int)).events,
        decreases calls.len() - i,
    {
        let call: &ToolCallAccumulator = &calls[i];
        let ghost sofar = complete_all(all.take(i as int));
        proof {
            assert(all.take(i + 1).drop_last() =~= all.take(i as int));
            assert(all.take(i + 1).last() == call@);
        }
        match complete_call(call, parse_json(call.arguments.as_str())) {
            Ok(event) => {
                emit(events, event);
                proof {
                    assert(before + sofar.events.push(event@) =~= (before + sofar.events).push(
                        event@,
                    ));
                }
            },
            Err(error) => {
                proof {
                    assert(complete_all(all.take(i + 1)) == Completion {
                        events: sofar.events,
                        failed: true,
                    });
                    assert(failing_arguments(all.take(i + 1)) == call@.arguments);
                    lemma_complete_all_stays_failed(all, i + 1);
                }
                return Some(error);
            },
        }
        i = i + 1;
    }
    proof {
        assert(all.take(i as int) =~= all);
    }
    None
}

impl DeltaInterpreter {
    /// Every call that is under way has one accumulator.
    #[verifier::type_invariant]
    spec fn one_accumulator_each(self) -> bool {
        distinct_indices(call_views(self.calls@))
    }

    /// An interpreter that has seen no chunk.
    pub fn new() -> (interpreter: DeltaInterpreter)
        ensures
            interpreter@ == initial_state(),
    {
        let interpreter = DeltaInterpreter { calls: Vec::new(), finished: false };
        proof {
            assert(call_views(interpreter.calls@) =~= Seq::empty());
        }
        interpreter
    }

    /// Whether the message has ended, so that no further chunk has any
    /// effect.
    pub fn is_finished(&self) -> (finished: bool)
        ensures
            finished == self@.finished,
    {
        self.finished
    }

    /// How many tool calls are under way.
    pub fn open_calls(&self) -> (count: usize)
        ensures
            count == self@.calls.len(),
    {
        self.calls.len()
    }

    /// Lets the accumulator of the piece's index absorb the piece, creating
    /// it where the index is new.
    fn on_fragment(&mut self, piece: &ToolCallDelta, events: &mut Vec<StreamEvent>)
        ensures
            final(self).finished == old(self).finished,
            call_views(final(self).calls@) == apply_fragment(
                call_views(old(self).calls@),
                piece@,
            ).calls,
            event_views(final(events)@) == event_views(old(events)@) + apply_fragment(
                call_views(old(self).calls@),
                piece@,
            ).events,
    {
        let ghost before = call_views(self.calls@);
        proof {
            use_type_invariant(&*self);
        }
        let mut calls: Vec<ToolCallAccumulator> = Vec::new();
        proof {
            assert(call_views(calls@) =~= Seq::empty());
        }
        std::mem::swap(&mut self.calls, &mut calls);
        let mut at: usize = 0;
        while at < calls.len() && calls[at].index != piece.index
            invariant
                at <= calls.len(),
                before == call_views(calls@),
                forall|k: int| 0 <= k < at ==> (#[trigger] before[k]).index != piece.index,
            decreases calls.len() - at,
        {
            at = at + 1;
        }
        proof {
            if at < calls.len() {
                assert(before[at as int].index == piece.index);
            }
            lemma_slot(before, piece.index, at as int);
        }
        if at < calls.len() {
            let mut entry: ToolCallAccumulator = calls.remove(at);
            absorb_piece(&mut entry, piece, events);
            calls.insert(at, entry);
            proof {
                assert(call_views(calls@) =~= before.update(at as int, entry@));
            }
        } else {
            let mut entry = ToolCallAccumulator {
                index: piece.index,
                id: None,
                name: None,
                arguments: String::new(),
            };
            absorb_piece(&mut entry, piece, events);
            calls.push(entry);
            proof {
                assert(call_views(calls@) =~= before.push(entry@));
            }
        }
        proof {
            let after = call_views(calls@);
            assert forall|i: int, j: int| 0 <= i < j < after.len() implies (
            #[trigger] after[i]).index != (#[trigger] after[j]).index by {
                if at < before.len() {
                    assert(after[i].index == before[i].index);
                    assert(after[j].index == before[j].index);
                } else if j == at {
                    assert(after[i] == before[i]);
                } else {
                    assert(after[i] == before[i]);
                    assert(after[j] == before[j]);
                }
            }
        }
        std::mem::swap(&mut self.calls, &mut calls);
    }

    /// Lets the accumulators absorb the pieces in order.
    fn on_fragments(&mut self, pieces: &Vec<ToolCallDelta>, events: &mut Vec<StreamEvent>)
        ensures
            final(self).finished == old(self).finished,
            call_views(final(self).calls@) == apply_fragments(
                call_views(old(self).calls@),
                fragment_views(pieces@),
            ).calls,
            event_views(final(events)@) == event_views(old(events)@) + apply_fragments(
                call_views(old(self).calls@),
                fragment_views(pieces@),
            ).events,
    {
        let ghost start = call_views(self.calls@);
        let ghost before = event_views(events@);
        let ghost fragments = fragment_views(pieces@);
        let mut j: usize = 0;
        proof {
            assert(before + Seq::<EventView>::empty() =~= before);
        }
        while j < pieces.len()
            invariant
                j <= pieces.len(),
                self.finished == old(self).finished,
                fragments == fragment_views(pieces@),
                call_views(self.calls@) == apply_fragments(start, fragments.take(j as int)).calls,
                event_views(events@) == before + apply_fragments(
                    start,
                    fragments.take(j as int),
                ).events,
            decreases pieces.len() - j,
        {
            let ghost sofar = apply_fragments(start, fragments.take(j as int));
            proof {
                assert(fragments.take(j + 1).drop_last() =~= fragments.take(j as int));
                assert(fragments.take(j + 1).last() == pieces[j as int]@);
            }
            self.on_fragment(&pieces[j], events);
            proof {
                let step = apply_fragment(sofar.calls, pieces[j as int]@);
                assert(before + sofar.events + step.events =~= before + (sofar.events
                    + step.events));
            }
            j = j + 1;
        }
        proof {
            assert(fragments.take(j as int) =~= fragments);
        }
    }

    /// Handles one choice of a chunk and appends its events to `events`.
    fn on_choice(&mut self, choice: &ChatCompletionChunkChoice, events: &mut Vec<StreamEvent>) -> (error:
        Option<ArtificialError>)
        ensures
            final(self)@ == choice_step(old(self)@, choice@).state,
            event_views(final(events)@) == event_views(old(events)@) + choice_step(
                old(self)@,
                choice@,
            ).events,
            error is Some <==> choice_step(old(self)@, choice@).failed,
            error matches Some(e) ==> is_argument_error(e, choice_failure(old(self)@, choice@)),
    {
        let ghost before = event_views(events@);
        let ghost text = text_events(choice@.content);
        let ghost progress = apply_fragments(old(self)@.calls, choice@.tool_calls);
        if self.finished || choice.index != 0 {
            proof {
                assert(before + Seq::<EventView>::empty() =~= before);
            }
            return None;
        }
        if let Some(content) = &choice.delta.content {
            if !content.as_str().is_empty() {
                emit(events, StreamEvent::TextDelta(content.clone()));
            }
        }
        proof {
            assert(event_views(events@) =~= before + text);
        }
        if let Some(pieces) = &choice.delta.tool_calls {
            self.on_fragments(pieces, events);
        }
        proof {
            assert(event_views(events@) =~= before + (text + progress.events));
        }
        match choice.finish_reason {
            Some(FinishReason::ToolCalls) => {
                let error = complete_calls(&self.calls, events);
                self.calls = Vec::new();
                self.finished = true;
                proof {
                    assert(call_views(self.calls@) =~= Seq::empty());
                    assert(event_views(events@) =~= before + ((text + progress.events)
                        + complete_all(progress.calls).events));
                }
                if error.is_none() {
                    emit(events, StreamEvent::MessageEnd);
                    proof {
                        assert(event_views(events@) =~= before + ((text + progress.events)
                            + complete_all(progress.calls).events).push(EventView::MessageEnd));
                    }
                }
                error
            },
            Some(_) => {
                proof {
                    use_type_invariant(&*self);
                }
                self.finished = true;
                emit(events, StreamEvent::MessageEnd);
                proof {
                    assert(event_views(events@) =~= before + (text + progress.events).push(
                        EventView::MessageEnd,
                    ));
                }
                None
            },
            None => None,
        }
    }

    /// Handles one chunk and says what it gave rise to.
    ///
    /// The choices are handled in order, as [`choice_step`] describes. Once
    /// the message has ended, by a finish reason or by an error, a chunk
    /// changes nothing and gives rise to nothing.
    pub fn on_chunk(&mut self, chunk: &ChatCompletionChunkResponse) -> (outcome: ChunkOutcome)
        ensures
            final(self)@ == chunk_step(old(self)@, chunk@).state,
            event_views(outcome.events@) == chunk_step(old(self)@, chunk@).events,
            outcome.error is Some <==> chunk_step(old(self)@, chunk@).failed,
            outcome.error matches Some(e) ==> is_argument_error(
                e,
                chunk_failure(old(self)@, chunk@),
            ),
    {
        let ghost start = self@;
        let ghost choices = chunk@;
        let mut events: Vec<StreamEvent> = Vec::new();
        let mut error: Option<ArtificialError> = None;
        let mut i: usize = 0;
        proof {
            assert(event_views(events@) =~= Seq::empty());
        }
        while i < chunk.choices.len()
            invariant
                i <= chunk.choices.len(),
                choices == chunk@,
                self@ == chunk_step(start, choices.take(i as int)).state,
                event_views(events@) == chunk_step(start, choices.take(i as int)).events,
                error is Some <==> chunk_step(start, choices.take(i as int)).failed,
                error matches Some(e) ==> is_argument_error(
                    e,
                    chunk_failure(start, choices.take(i as int)),
                ),
                error is Some ==> self@.finished,
            decreases chunk.choices.len() - i,
        {
            proof {
                assert(choices.take(i + 1).drop_last() =~= choices.take(i as int));
                assert(choices.take(i + 1).last() == chunk.choices[i as int]@);
            }
            let failure = self.on_choice(&chunk.choices[i], &mut events);
            if failure.is_some() {
                error = failure;
            }
            i = i + 1;
        }
        proof {
            assert(choices.take(i as int) =~= choices);
        }
        ChunkOutcome { events, error }
    }
}

} // verus!
