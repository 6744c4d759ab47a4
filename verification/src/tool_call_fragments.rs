//! The text and the argument text that the interpreter of tool calls passes
//! on: exactly the fragments that came in, each once and in order.

use vstd::prelude::*;

use crate::api_v1::chat_completion::FinishReason;
use crate::api_v1::chat_completion_stream::ChoiceDelta;
use crate::api_v1::chat_completion_stream::ToolCallFragment;
use crate::generic::EventView;
use crate::tool_call_laws::lemma_slot_is_first;
use crate::tool_calls::absorb;
use crate::tool_calls::apply_fragment;
use crate::tool_calls::apply_fragments;
use crate::tool_calls::choice_step;
use crate::tool_calls::chunk_step;
use crate::tool_calls::complete_all;
use crate::tool_calls::fresh_call;
use crate::tool_calls::initial_state;
use crate::tool_calls::slot;
use crate::tool_calls::stream_step;
use crate::tool_calls::text_events;
use crate::tool_calls::CallState;
use crate::tool_calls::InterpreterState;

verus! {

/// Whether `event` passes a fragment on: a piece of text, or a piece of
/// the argument text of a call.
pub open spec fn passes_on(event: EventView) -> bool {
    event is TextDelta || event is ToolCallArgumentsDelta
}

/// The events among `events` that pass a fragment on, in order.
pub open spec fn passed_on(events: Seq<EventView>) -> Seq<EventView>
    decreases events.len(),
{
    if events.len() == 0 {
        Seq::empty()
    } else if passes_on(events.last()) {
        passed_on(events.drop_last()).push(events.last())
    } else {
        passed_on(events.drop_last())
    }
}

/// The argument text that one piece brings, as the delta that passes it
/// on; nothing where the piece brings none or brings the empty text.
pub open spec fn argument_fragment(piece: ToolCallFragment) -> Seq<EventView> {
    match piece.arguments {
        Some(text) => if text.len() > 0 {
            seq![EventView::ToolCallArgumentsDelta { index: piece.index, fragment: text }]
        } else {
            Seq::empty()
        },
        None => Seq::empty(),
    }
}

/// The argument text that the pieces bring, piece by piece.
pub open spec fn argument_fragments(pieces: Seq<ToolCallFragment>) -> Seq<EventView>
    decreases pieces.len(),
{
    if pieces.len() == 0 {
        Seq::empty()
    } else {
        argument_fragments(pieces.drop_last()) + argument_fragment(pieces.last())
    }
}

/// The fragments that one choice brings: its text, unless it is absent or
/// empty, then the argument text of its pieces.
pub open spec fn fragments_of(choice: ChoiceDelta) -> Seq<EventView> {
    text_events(choice.content) + argument_fragments(choice.tool_calls)
}

/// Whether one choice counts: it has the index zero.
pub open spec fn counts(choice: ChoiceDelta) -> bool {
    choice.index == 0
}

/// Whether the message has ended after `choices`, given whether it had
/// ended before: a choice that counts and gives a finish reason ends it.
pub open spec fn ended_by(finished: bool, choices: Seq<ChoiceDelta>) -> bool
    decreases choices.len(),
{
    if choices.len() == 0 {
        finished
    } else {
        ended_by(finished, choices.drop_last()) || (counts(choices.last())
            && choices.last().finish_reason is Some)
    }
}

/// The fragments that `choices` bring to a listener, given whether the
/// message had ended before: those of every choice that counts, up to and
/// with the first that gives a finish reason.
pub open spec fn heard(finished: bool, choices: Seq<ChoiceDelta>) -> Seq<EventView>
    decreases choices.len(),
{
    if choices.len() == 0 {
        Seq::empty()
    } else if !ended_by(finished, choices.drop_last()) && counts(choices.last()) {
        heard(finished, choices.drop_last()) + fragments_of(choices.last())
    } else {
        heard(finished, choices.drop_last())
    }
}

/// What two runs of events pass on is what the first passes on, followed
/// by what the second does.
proof fn lemma_passed_on_concat(head: Seq<EventView>, tail: Seq<EventView>)
    ensures
        passed_on(head + tail) == passed_on(head) + passed_on(tail),
    decreases tail.len(),
{
    if tail.len() == 0 {
        assert(head + tail =~= head);
        assert(passed_on(head) + Seq::<EventView>::empty() =~= passed_on(head));
    } else {
        assert((head + tail).drop_last() =~= head + tail.drop_last());
        assert((head + tail).last() == tail.last());
        lemma_passed_on_concat(head, tail.drop_last());
        if passes_on(tail.last()) {
            assert((passed_on(head) + passed_on(tail.drop_last())).push(tail.last())
                =~= passed_on(head) + passed_on(tail.drop_last()).push(tail.last()));
        }
    }
}

/// Events of which none passes a fragment on pass nothing on.
proof fn lemma_nothing_passed_on(events: Seq<EventView>)
    requires
        forall|k: int| 0 <= k < events.len() ==> !passes_on(#[trigger] events[k]),
    ensures
        passed_on(events) == Seq::<EventView>::empty(),
    decreases events.len(),
{
    if events.len() > 0 {
        assert(!passes_on(events[events.len() - 1]));
        assert forall|k: int| 0 <= k < events.drop_last().len() implies !passes_on(
            #[trigger] events.drop_last()[k],
        ) by {
            assert(events.drop_last()[k] == events[k]);
        }
        lemma_nothing_passed_on(events.drop_last());
    }
}

/// Events that all pass a fragment on are passed on as they are.
proof fn lemma_all_passed_on(events: Seq<EventView>)
    requires
        forall|k: int| 0 <= k < events.len() ==> passes_on(#[trigger] events[k]),
    ensures
        passed_on(events) == events,
    decreases events.len(),
{
    if events.len() > 0 {
        assert(passes_on(events[events.len() - 1]));
        assert forall|k: int| 0 <= k < events.drop_last().len() implies passes_on(
            #[trigger] events.drop_last()[k],
        ) by {
            assert(events.drop_last()[k] == events[k]);
        }
        lemma_all_passed_on(events.drop_last());
        assert(events.drop_last().push(events.last()) =~= events);
    }
}

/// What one absorbed piece passes on is the argument text that it brings.
proof fn lemma_absorb_passes_on(call: CallState, piece: ToolCallFragment)
    requires
        call.index == piece.index,
    ensures
        passed_on(absorb(call, piece).events) == argument_fragment(piece),
{
    let with_id = if piece.id is Some {
        CallState { id: piece.id, ..call }
    } else {
        call
    };
    let id_events = if piece.id is Some && call.id is None {
        seq![EventView::ToolCallStart { index: call.index, id: piece.id, name: call.name }]
    } else {
        Seq::empty()
    };
    let name_events = if piece.name is Some && with_id.name is None {
        seq![EventView::ToolCallStart { index: call.index, id: with_id.id, name: piece.name }]
    } else {
        Seq::empty()
    };
    let argument_events = argument_fragment(piece);
    assert(absorb(call, piece).events == id_events + name_events + argument_events);
    lemma_passed_on_concat(id_events + name_events, argument_events);
    lemma_passed_on_concat(id_events, name_events);
    lemma_nothing_passed_on(id_events);
    lemma_nothing_passed_on(name_events);
    lemma_all_passed_on(argument_events);
    assert(Seq::<EventView>::empty() + Seq::<EventView>::empty() + argument_events
        =~= argument_events);
}

/// What a list of pieces passes on is the argument text that they bring.
proof fn lemma_fragments_pass_on(calls: Seq<CallState>, pieces: Seq<ToolCallFragment>)
    ensures
        passed_on(apply_fragments(calls, pieces).events) == argument_fragments(pieces),
    decreases pieces.len(),
{
    if pieces.len() > 0 {
        let before = apply_fragments(calls, pieces.drop_last());
        let piece = pieces.last();
        lemma_fragments_pass_on(calls, pieces.drop_last());
        lemma_slot_is_first(before.calls, piece.index);
        let at = slot(before.calls, piece.index);
        if at < before.calls.len() {
            lemma_absorb_passes_on(before.calls[at], piece);
        } else {
            lemma_absorb_passes_on(fresh_call(piece.index), piece);
        }
        lemma_passed_on_concat(before.events, apply_fragment(before.calls, piece).events);
    }
}

/// The completion of calls passes nothing on.
proof fn lemma_completion_passes_nothing_on(calls: Seq<CallState>)
    ensures
        passed_on(complete_all(calls).events) == Seq::<EventView>::empty(),
    decreases calls.len(),
{
    if calls.len() > 0 {
        lemma_completion_passes_nothing_on(calls.drop_last());
        let before = complete_all(calls.drop_last());
        let done = complete_all(calls);
        if done.events.len() > before.events.len() {
            assert(done.events.drop_last() =~= before.events);
            assert(!passes_on(done.events.last()));
        }
    }
}

/// What one choice passes on is the fragments that it brings, where it
/// counts and the message has not ended; and it ends the message where it
/// counts and gives a finish reason.
pub proof fn lemma_choice_passes_fragments(state: InterpreterState, choice: ChoiceDelta)
    ensures
        passed_on(choice_step(state, choice).events) == if !state.finished && counts(choice) {
            fragments_of(choice)
        } else {
            Seq::<EventView>::empty()
        },
        choice_step(state, choice).state.finished == (state.finished || (counts(choice)
            && choice.finish_reason is Some)),
{
    if !state.finished && counts(choice) {
        let text = text_events(choice.content);
        let progress = apply_fragments(state.calls, choice.tool_calls);
        let gathered = text + progress.events;
        lemma_fragments_pass_on(state.calls, choice.tool_calls);
        lemma_passed_on_concat(text, progress.events);
        lemma_all_passed_on(text);
        assert(passed_on(gathered) == fragments_of(choice));
        let end = seq![EventView::MessageEnd];
        lemma_nothing_passed_on(end);
        assert(fragments_of(choice) + Seq::<EventView>::empty() =~= fragments_of(choice));
        match choice.finish_reason {
            None => {},
            Some(FinishReason::ToolCalls) => {
                let done = complete_all(progress.calls);
                lemma_completion_passes_nothing_on(progress.calls);
                lemma_passed_on_concat(gathered, done.events);
                if !done.failed {
                    lemma_passed_on_concat(gathered + done.events, end);
                    assert((gathered + done.events).push(EventView::MessageEnd) =~= gathered
                        + done.events + end);
                }
            },
            Some(_) => {
                lemma_passed_on_concat(gathered, end);
                assert(gathered.push(EventView::MessageEnd) =~= gathered + end);
            },
        }
    }
}

/// What one chunk passes on is what its choices bring to a listener, each
/// fragment once and in order.
pub proof fn lemma_chunk_passes_fragments(state: InterpreterState, choices: Seq<ChoiceDelta>)
    ensures
        passed_on(chunk_step(state, choices).events) == heard(state.finished, choices),
        chunk_step(state, choices).state.finished == ended_by(state.finished, choices),
    decreases choices.len(),
{
    if choices.len() > 0 {
        let before = chunk_step(state, choices.drop_last());
        lemma_chunk_passes_fragments(state, choices.drop_last());
        lemma_choice_passes_fragments(before.state, choices.last());
        lemma_passed_on_concat(before.events, choice_step(before.state, choices.last()).events);
        assert(heard(state.finished, choices.drop_last()) + Seq::<EventView>::empty() =~= heard(
            state.finished,
            choices.drop_last(),
        ));
    }
}

/// What is heard of two runs of choices is what is heard of the first,
/// followed by what is heard of the second once the first is over.
proof fn lemma_heard_concat(finished: bool, head: Seq<ChoiceDelta>, tail: Seq<ChoiceDelta>)
    ensures
        heard(finished, head + tail) == heard(finished, head) + heard(
            ended_by(finished, head),
            tail,
        ),
        ended_by(finished, head + tail) == ended_by(ended_by(finished, head), tail),
    decreases tail.len(),
{
    if tail.len() == 0 {
        assert(head + tail =~= head);
        assert(heard(finished, head) + Seq::<EventView>::empty() =~= heard(finished, head));
    } else {
        assert((head + tail).drop_last() =~= head + tail.drop_last());
        assert((head + tail).last() == tail.last());
        lemma_heard_concat(finished, head, tail.drop_last());
        let middle = ended_by(finished, head);
        assert(heard(finished, head) + heard(middle, tail.drop_last()) + fragments_of(
            tail.last(),
        ) =~= heard(finished, head) + (heard(middle, tail.drop_last()) + fragments_of(
            tail.last(),
        )));
    }
}

/// Whatever chunks a stream is made of, the text and the argument deltas
/// among its events are exactly the fragments that came in, each once and
/// in order: the text of every choice that counts, unless it is absent or
/// empty, followed by the argument text of its pieces, unless absent or
/// empty, up to and with the first choice that gives a finish reason.
pub proof fn lemma_stream_passes_fragments(chunks: Seq<Seq<ChoiceDelta>>)
    ensures
        passed_on(stream_step(initial_state(), chunks).events) == heard(false, chunks.flatten()),
        stream_step(initial_state(), chunks).state.finished == ended_by(false, chunks.flatten()),
    decreases chunks.len(),
{
    if chunks.len() == 0 {
        assert(chunks.flatten() =~= Seq::<ChoiceDelta>::empty());
    } else {
        let earlier = chunks.drop_last();
        let before = stream_step(initial_state(), earlier);
        lemma_stream_passes_fragments(earlier);
        lemma_chunk_passes_fragments(before.state, chunks.last());
        lemma_passed_on_concat(before.events, chunk_step(before.state, chunks.last()).events);
        chunks.lemma_flatten_and_flatten_alt_are_equivalent();
        earlier.lemma_flatten_and_flatten_alt_are_equivalent();
        assert(chunks.flatten() =~= earlier.flatten() + chunks.last());
        lemma_heard_concat(false, earlier.flatten(), chunks.last());
    }
}

} // verus!
