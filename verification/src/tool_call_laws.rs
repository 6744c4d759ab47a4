//! What holds of every stream of events that the interpreter of tool calls
//! gives rise to.

use vstd::prelude::*;

use crate::api_v1::chat_completion::FinishReason;
use crate::api_v1::chat_completion_stream::ChoiceDelta;
use crate::api_v1::chat_completion_stream::ToolCallFragment;
use crate::generic::EventView;
use crate::tool_calls::absorb;
use crate::tool_calls::apply_fragment;
use crate::tool_calls::apply_fragments;
use crate::tool_calls::choice_step;
use crate::tool_calls::chunk_step;
use crate::tool_calls::complete_all;
use crate::tool_calls::distinct_indices;
use crate::tool_calls::fresh_call;
use crate::tool_calls::initial_state;
use crate::tool_calls::slot;
use crate::tool_calls::stream_step;
use crate::tool_calls::text_events;
use crate::tool_calls::writes;
use crate::tool_calls::CallState;
use crate::tool_calls::InterpreterState;

verus! {

/// The argument text that `event` passes on for the call of index `index`.
pub open spec fn fragment_text(event: EventView, index: usize) -> Seq<char> {
    match event {
        EventView::ToolCallArgumentsDelta { index: of, fragment } => if of == index {
            fragment
        } else {
            Seq::empty()
        },
        _ => Seq::empty(),
    }
}

/// All argument text that `events` pass on for the call of index `index`,
/// joined in the order of the events.
pub open spec fn argument_text(events: Seq<EventView>, index: usize) -> Seq<char>
    decreases events.len(),
{
    if events.len() == 0 {
        Seq::empty()
    } else {
        argument_text(events.drop_last(), index) + fragment_text(events.last(), index)
    }
}

/// How many of `events` start the call of index `index`.
pub open spec fn start_count(events: Seq<EventView>, index: usize) -> nat
    decreases events.len(),
{
    if events.len() == 0 {
        0
    } else {
        start_count(events.drop_last(), index) + if is_start(events.last(), index) {
            1nat
        } else {
            0nat
        }
    }
}

/// Whether `event` starts the call of index `index`.
pub open spec fn is_start(event: EventView, index: usize) -> bool {
    event matches EventView::ToolCallStart { index: of, .. } && of == index
}

/// How many start events a call has given rise to: one for its identifier
/// and one for its name, each once it is known.
spec fn starts_of(call: CallState) -> nat {
    (if call.id is Some {
        1nat
    } else {
        0nat
    }) + (if call.name is Some {
        1nat
    } else {
        0nat
    })
}

/// Every call was started as often as [`starts_of`] says, and no other
/// index was started at all.
spec fn starts_match(calls: Seq<CallState>, events: Seq<EventView>) -> bool {
    &&& forall|i: int|
        0 <= i < calls.len() ==> start_count(events, (#[trigger] calls[i]).index) == starts_of(
            calls[i],
        )
    &&& forall|index: usize| !has_call(calls, index) ==> #[trigger] start_count(events, index) == 0
}

/// No event starts a call.
spec fn no_starts(events: Seq<EventView>) -> bool {
    forall|k: int| 0 <= k < events.len() ==> !(#[trigger] events[k] is ToolCallStart)
}

/// No call is started more than twice: once when its identifier becomes
/// known and once when its name does.
pub open spec fn starts_at_most_twice(events: Seq<EventView>) -> bool {
    forall|index: usize| #[trigger] start_count(events, index) <= 2
}

/// Whether `calls` holds an accumulator for `index`.
pub open spec fn has_call(calls: Seq<CallState>, index: usize) -> bool {
    exists|i: int| 0 <= i < calls.len() && (#[trigger] calls[i]).index == index
}

/// Every accumulator holds exactly the argument text that the events
/// passed on for its index.
spec fn buffers_match(calls: Seq<CallState>, events: Seq<EventView>) -> bool {
    forall|i: int|
        0 <= i < calls.len() ==> (#[trigger] calls[i]).arguments == argument_text(
            events,
            calls[i].index,
        )
}

/// No argument text was passed on for an index without accumulator.
spec fn unseen_are_empty(calls: Seq<CallState>, events: Seq<EventView>) -> bool {
    forall|index: usize|
        !has_call(calls, index) ==> #[trigger] argument_text(events, index) == Seq::<char>::empty()
}

/// No event completes a call.
spec fn no_completion(events: Seq<EventView>) -> bool {
    forall|k: int| 0 <= k < events.len() ==> !(#[trigger] events[k] is ToolCallComplete)
}

/// No event passes on argument text.
spec fn no_arguments(events: Seq<EventView>) -> bool {
    forall|k: int| 0 <= k < events.len() ==> !(#[trigger] events[k] is ToolCallArgumentsDelta)
}

/// No event ends the message.
spec fn no_end(events: Seq<EventView>) -> bool {
    forall|k: int| 0 <= k < events.len() ==> !(#[trigger] events[k] is MessageEnd)
}

/// The end of the message is announced at most once, and by the last
/// event.
pub open spec fn ends_last(events: Seq<EventView>) -> bool {
    forall|k: int|
        0 <= k < events.len() && #[trigger] events[k] is MessageEnd ==> k == events.len() - 1
}

/// Once a call is completed, no start and no delta follows: nothing comes
/// after a completion but further completions and the end of the message.
pub open spec fn completions_come_last(events: Seq<EventView>) -> bool {
    forall|j: int, k: int|
        0 <= j < k < events.len() && #[trigger] events[j] is ToolCallComplete ==> (
        #[trigger] events[k] is ToolCallComplete || events[k] is MessageEnd)
}

/// Every completed call carries the document that the argument text passed
/// on for its index writes.
pub open spec fn round_trips(events: Seq<EventView>) -> bool {
    forall|k: int|
        0 <= k < events.len() ==> match #[trigger] events[k] {
            EventView::ToolCallComplete { index, arguments, .. } => writes(argument_text(events, index), arguments),
            _ => true,
        }
}

/// While calls are gathered: no index occurs twice, every accumulator holds
/// exactly the argument text passed on for its index, no text was passed on
/// for any other index, and no call has been completed.
spec fn gathering(calls: Seq<CallState>, events: Seq<EventView>) -> bool {
    &&& distinct_indices(calls)
    &&& buffers_match(calls, events)
    &&& unseen_are_empty(calls, events)
    &&& no_completion(events)
    &&& no_end(events)
    &&& starts_match(calls, events)
}

/// What holds of a state together with the events that led to it: the
/// laws, once the message has ended; what the laws follow from, while calls
/// are gathered.
spec fn consistent(state: InterpreterState, events: Seq<EventView>) -> bool {
    if state.finished {
        round_trips(events) && ends_last(events) && starts_at_most_twice(events)
            && completions_come_last(events)
    } else {
        gathering(state.calls, events)
    }
}

/// The argument text of two runs of events is that of the first followed
/// by that of the second.
proof fn lemma_argument_text_concat(head: Seq<EventView>, tail: Seq<EventView>, index: usize)
    ensures
        argument_text(head + tail, index) == argument_text(head, index) + argument_text(
            tail,
            index,
        ),
    decreases tail.len(),
{
    if tail.len() == 0 {
        assert(head + tail =~= head);
        assert(argument_text(head, index) + Seq::<char>::empty() =~= argument_text(head, index));
    } else {
        assert((head + tail).drop_last() =~= head + tail.drop_last());
        assert((head + tail).last() == tail.last());
        lemma_argument_text_concat(head, tail.drop_last(), index);
        assert(argument_text(head, index) + (argument_text(tail.drop_last(), index)
            + fragment_text(tail.last(), index)) =~= (argument_text(head, index) + argument_text(
            tail.drop_last(),
            index,
        )) + fragment_text(tail.last(), index));
    }
}

/// Events that pass on no argument text pass on the empty text.
proof fn lemma_no_arguments_no_text(events: Seq<EventView>, index: usize)
    requires
        no_arguments(events),
    ensures
        argument_text(events, index) == Seq::<char>::empty(),
    decreases events.len(),
{
    if events.len() > 0 {
        assert(!(events[events.len() - 1] is ToolCallArgumentsDelta));
        assert forall|k: int| 0 <= k < events.drop_last().len() implies !(
        #[trigger] events.drop_last()[k] is ToolCallArgumentsDelta) by {
            assert(events.drop_last()[k] == events[k]);
        }
        lemma_no_arguments_no_text(events.drop_last(), index);
        assert(Seq::<char>::empty() + Seq::<char>::empty() =~= Seq::<char>::empty());
    }
}

/// The starts of two runs of events add up.
proof fn lemma_start_count_concat(head: Seq<EventView>, tail: Seq<EventView>, index: usize)
    ensures
        start_count(head + tail, index) == start_count(head, index) + start_count(tail, index),
    decreases tail.len(),
{
    if tail.len() == 0 {
        assert(head + tail =~= head);
    } else {
        assert((head + tail).drop_last() =~= head + tail.drop_last());
        assert((head + tail).last() == tail.last());
        lemma_start_count_concat(head, tail.drop_last(), index);
    }
}

/// Events that start no call count no start.
proof fn lemma_no_starts_no_count(events: Seq<EventView>, index: usize)
    requires
        no_starts(events),
    ensures
        start_count(events, index) == 0,
    decreases events.len(),
{
    if events.len() > 0 {
        assert(!(events[events.len() - 1] is ToolCallStart));
        assert forall|k: int| 0 <= k < events.drop_last().len() implies !(
        #[trigger] events.drop_last()[k] is ToolCallStart) by {
            assert(events.drop_last()[k] == events[k]);
        }
        lemma_no_starts_no_count(events.drop_last(), index);
    }
}

/// One event counts one start, or none.
proof fn lemma_single_start(event: EventView, index: usize)
    ensures
        start_count(seq![event], index) == if is_start(event, index) {
            1nat
        } else {
            0nat
        },
{
    let one = seq![event];
    assert(one.drop_last() =~= Seq::<EventView>::empty());
    assert(one.last() == event);
    assert(start_count(one.drop_last(), index) == 0);
}

/// While calls are gathered, no call has been started more than twice.
proof fn lemma_gathering_starts(calls: Seq<CallState>, events: Seq<EventView>)
    requires
        gathering(calls, events),
    ensures
        starts_at_most_twice(events),
{
    assert forall|index: usize| #[trigger] start_count(events, index) <= 2 by {
        if has_call(calls, index) {
            let i = choose|i: int| 0 <= i < calls.len() && (#[trigger] calls[i]).index == index;
            assert(start_count(events, calls[i].index) == starts_of(calls[i]));
        }
    }
}

/// Events that start no call leave the count of starts as it was.
proof fn lemma_starts_stay(head: Seq<EventView>, tail: Seq<EventView>)
    requires
        starts_at_most_twice(head),
        no_starts(tail),
    ensures
        starts_at_most_twice(head + tail),
{
    assert forall|index: usize| #[trigger] start_count(head + tail, index) <= 2 by {
        lemma_start_count_concat(head, tail, index);
        lemma_no_starts_no_count(tail, index);
        assert(start_count(head, index) <= 2);
    }
}

/// One event passes on its own fragment.
proof fn lemma_single_text(event: EventView, index: usize)
    ensures
        argument_text(seq![event], index) == fragment_text(event, index),
{
    let one = seq![event];
    assert(one.drop_last() =~= Seq::<EventView>::empty());
    assert(one.last() == event);
    assert(argument_text(one.drop_last(), index) == Seq::<char>::empty());
    assert(Seq::<char>::empty() + fragment_text(event, index) =~= fragment_text(event, index));
}

/// The slot of an index is where its first accumulator stands, and lies
/// within the list exactly where there is one.
pub proof fn lemma_slot_is_first(calls: Seq<CallState>, index: usize)
    ensures
        0 <= slot(calls, index) <= calls.len(),
        slot(calls, index) < calls.len() ==> calls[slot(calls, index)].index == index,
        forall|k: int| 0 <= k < slot(calls, index) ==> (#[trigger] calls[k]).index != index,
        slot(calls, index) < calls.len() <==> has_call(calls, index),
    decreases calls.len(),
{
    if calls.len() == 0 {
    } else if calls[0].index == index {
    } else {
        let rest = calls.drop_first();
        lemma_slot_is_first(rest, index);
        let at = slot(rest, index);
        if at < rest.len() {
            assert(calls[at + 1] == rest[at]);
        }
        assert forall|k: int| 0 <= k < at + 1 implies (#[trigger] calls[k]).index != index by {
            if k > 0 {
                assert(calls[k] == rest[k - 1]);
            }
        }
        if has_call(calls, index) {
            let i = choose|i: int| 0 <= i < calls.len() && (#[trigger] calls[i]).index == index;
            assert(i > 0);
            assert(rest[i - 1] == calls[i]);
            assert(has_call(rest, index));
        }
    }
}

/// What the events of one absorbed piece pass on.
proof fn lemma_absorb_text(call: CallState, piece: ToolCallFragment, index: usize)
    requires
        call.index == piece.index,
    ensures
        argument_text(absorb(call, piece).events, index) == if index == piece.index {
            match piece.arguments {
                Some(text) => text,
                None => Seq::<char>::empty(),
            }
        } else {
            Seq::<char>::empty()
        },
        no_completion(absorb(call, piece).events),
        no_end(absorb(call, piece).events),
        absorb(call, piece).call.index == call.index,
        absorb(call, piece).call.arguments == call.arguments + match piece.arguments {
            Some(text) => text,
            None => Seq::<char>::empty(),
        },
        start_count(absorb(call, piece).events, index) + (if index == piece.index {
            starts_of(call)
        } else {
            0nat
        }) == if index == piece.index {
            starts_of(absorb(call, piece).call)
        } else {
            0nat
        },
{
    let with_id = if piece.id is Some {
        CallState { id: piece.id, ..call }
    } else {
        call
    };
    let id_events = if piece.id is Some && call.id is None {
        seq![EventView::ToolCallStart { index: call.index, id: piece.id, name: call.name }]
    } else {
        Seq::empty()
    };
    let name_events = if piece.name is Some && with_id.name is None {
        seq![EventView::ToolCallStart { index: call.index, id: with_id.id, name: piece.name }]
    } else {
        Seq::empty()
    };
    let argument_events = match piece.arguments {
        Some(text) => if text.len() > 0 {
            seq![EventView::ToolCallArgumentsDelta { index: call.index, fragment: text }]
        } else {
            Seq::empty()
        },
        None => Seq::empty(),
    };
    assert(absorb(call, piece).events == id_events + name_events + argument_events);
    assert(no_arguments(id_events));
    assert(no_arguments(name_events));
    lemma_no_arguments_no_text(id_events, index);
    lemma_no_arguments_no_text(name_events, index);
    lemma_argument_text_concat(id_events + name_events, argument_events, index);
    lemma_argument_text_concat(id_events, name_events, index);
    assert(Seq::<char>::empty() + Seq::<char>::empty() =~= Seq::<char>::empty());
    assert(Seq::<char>::empty() + argument_text(argument_events, index) =~= argument_text(
        argument_events,
        index,
    ));
    match piece.arguments {
        Some(text) => {
            if text.len() > 0 {
                lemma_single_text(argument_events[0], index);
            } else {
                assert(text =~= Seq::<char>::empty());
            }
        },
        None => {
            assert(call.arguments + Seq::<char>::empty() =~= call.arguments);
        },
    }
    lemma_start_count_concat(id_events + name_events, argument_events, index);
    lemma_start_count_concat(id_events, name_events, index);
    assert(no_starts(argument_events));
    lemma_no_starts_no_count(argument_events, index);
    if id_events.len() > 0 {
        lemma_single_start(id_events[0], index);
    }
    if name_events.len() > 0 {
        lemma_single_start(name_events[0], index);
    }
}

/// One piece keeps the accumulators in step with the events.
proof fn lemma_fragment_keeps_gathering(
    calls: Seq<CallState>,
    events: Seq<EventView>,
    piece: ToolCallFragment,
)
    requires
        gathering(calls, events),
    ensures
        gathering(
            apply_fragment(calls, piece).calls,
            events + apply_fragment(calls, piece).events,
        ),
{
    let at = slot(calls, piece.index);
    lemma_slot_is_first(calls, piece.index);
    let entry = if at < calls.len() {
        calls[at]
    } else {
        fresh_call(piece.index)
    };
    let effect = absorb(entry, piece);
    let after = apply_fragment(calls, piece).calls;
    let grown = events + effect.events;
    let added = match piece.arguments {
        Some(text) => text,
        None => Seq::<char>::empty(),
    };
    assert(apply_fragment(calls, piece).events == effect.events);
    lemma_absorb_text(entry, piece, piece.index);
    assert(entry.arguments == argument_text(events, piece.index)) by {
        if at < calls.len() {
        } else {
            assert(!has_call(calls, piece.index));
        }
    }
    assert forall|i: int| 0 <= i < after.len() implies (#[trigger] after[i]).arguments
        == argument_text(grown, after[i].index) by {
        lemma_argument_text_concat(events, effect.events, after[i].index);
        lemma_absorb_text(entry, piece, after[i].index);
        if i == at {
        } else {
            assert(after[i] == calls[i]);
            assert(calls[i].index != piece.index) by {
                if at < calls.len() {
                    if i < at {
                        assert(calls[i].index != calls[at].index);
                    } else {
                        assert(calls[at].index != calls[i].index);
                    }
                }
            }
            assert(argument_text(events, calls[i].index) + Seq::<char>::empty()
                =~= argument_text(events, calls[i].index));
        }
    }
    assert forall|i: int, j: int| 0 <= i < j < after.len() implies (#[trigger] after[i]).index != (
    #[trigger] after[j]).index by {
        if at < calls.len() {
            assert(after[i].index == calls[i].index);
            assert(after[j].index == calls[j].index);
        } else {
            if j == at {
                assert(after[i] == calls[i]);
                assert(calls[i].index != piece.index);
            } else {
                assert(after[i] == calls[i]);
                assert(after[j] == calls[j]);
            }
        }
    }
    assert forall|index: usize| !has_call(after, index) implies #[trigger] argument_text(
        grown,
        index,
    ) == Seq::<char>::empty() by {
        lemma_argument_text_concat(events, effect.events, index);
        lemma_absorb_text(entry, piece, index);
        assert(after[at].index == piece.index);
        assert(index != piece.index);
        if has_call(calls, index) {
            let i = choose|i: int| 0 <= i < calls.len() && (#[trigger] calls[i]).index == index;
            assert(after[i].index == calls[i].index);
            assert(has_call(after, index));
        }
        assert(argument_text(events, index) == Seq::<char>::empty());
        assert(Seq::<char>::empty() + Seq::<char>::empty() =~= Seq::<char>::empty());
    }
    assert forall|k: int| 0 <= k < grown.len() implies !(
    #[trigger] grown[k] is ToolCallComplete) by {
        if k < events.len() {
            assert(grown[k] == events[k]);
        } else {
            assert(grown[k] == effect.events[k - events.len()]);
        }
    }
    assert forall|k: int| 0 <= k < grown.len() implies !(#[trigger] grown[k] is MessageEnd) by {
        if k < events.len() {
            assert(grown[k] == events[k]);
        } else {
            assert(grown[k] == effect.events[k - events.len()]);
        }
    }
    assert(start_count(events, piece.index) == starts_of(entry)) by {
        if at < calls.len() {
        } else {
            assert(!has_call(calls, piece.index));
        }
    }
    assert forall|i: int| 0 <= i < after.len() implies start_count(
        grown,
        (#[trigger] after[i]).index,
    ) == starts_of(after[i]) by {
        lemma_start_count_concat(events, effect.events, after[i].index);
        lemma_absorb_text(entry, piece, after[i].index);
        if i == at {
        } else {
            assert(after[i] == calls[i]);
            assert(calls[i].index != piece.index) by {
                if at < calls.len() {
                    if i < at {
                        assert(calls[i].index != calls[at].index);
                    } else {
                        assert(calls[at].index != calls[i].index);
                    }
                }
            }
        }
    }
    assert forall|index: usize| !has_call(after, index) implies #[trigger] start_count(
        grown,
        index,
    ) == 0 by {
        lemma_start_count_concat(events, effect.events, index);
        lemma_absorb_text(entry, piece, index);
        assert(after[at].index == piece.index);
        assert(index != piece.index);
        if has_call(calls, index) {
            let i = choose|i: int| 0 <= i < calls.len() && (#[trigger] calls[i]).index == index;
            assert(after[i].index == calls[i].index);
            assert(has_call(after, index));
        }
        assert(start_count(events, index) == 0);
    }
}

/// A list of pieces keeps the accumulators in step with the events.
proof fn lemma_fragments_keep_gathering(
    calls: Seq<CallState>,
    events: Seq<EventView>,
    pieces: Seq<ToolCallFragment>,
)
    requires
        gathering(calls, events),
    ensures
        gathering(
            apply_fragments(calls, pieces).calls,
            events + apply_fragments(calls, pieces).events,
        ),
    decreases pieces.len(),
{
    if pieces.len() == 0 {
        assert(events + Seq::<EventView>::empty() =~= events);
    } else {
        let before = apply_fragments(calls, pieces.drop_last());
        lemma_fragments_keep_gathering(calls, events, pieces.drop_last());
        lemma_fragment_keeps_gathering(before.calls, events + before.events, pieces.last());
        let last = apply_fragment(before.calls, pieces.last());
        assert((events + before.events) + last.events =~= events + (before.events + last.events));
    }
}

/// Whether every event of `produced` completes one of `calls` with the
/// document that the call's argument text writes.
spec fn completes_of(calls: Seq<CallState>, produced: Seq<EventView>) -> bool {
    forall|k: int|
        0 <= k < produced.len() ==> match #[trigger] produced[k] {
            EventView::ToolCallComplete { index, arguments, .. } => exists|i: int|
                0 <= i < calls.len() && (#[trigger] calls[i]).index == index && writes(calls[i].arguments, arguments),
            _ => false,
        }
}

/// The completion of calls gives rise to nothing but completions of these
/// calls.
proof fn lemma_complete_all_completes(calls: Seq<CallState>)
    ensures
        completes_of(calls, complete_all(calls).events),
    decreases calls.len(),
{
    if calls.len() > 0 {
        let shorter = calls.drop_last();
        lemma_complete_all_completes(shorter);
        let before = complete_all(shorter);
        let produced = complete_all(calls).events;
        assert forall|k: int| 0 <= k < produced.len() implies match #[trigger] produced[k] {
            EventView::ToolCallComplete { index, arguments, .. } => exists|i: int|
                0 <= i < calls.len() && (#[trigger] calls[i]).index == index && writes(calls[i].arguments, arguments),
            _ => false,
        } by {
            if k < before.events.len() {
                assert(produced[k] == before.events[k]);
                match before.events[k] {
                    EventView::ToolCallComplete { index, arguments, .. } => {
                        let i = choose|i: int|
                            0 <= i < shorter.len() && (#[trigger] shorter[i]).index == index
                                && writes(shorter[i].arguments, arguments);
                        assert(calls[i] == shorter[i]);
                    },
                    _ => {},
                }
            } else {
                let last = calls.len() - 1;
                assert(calls[last] == calls.last());
            }
        }
    }
}

/// The laws hold of the events that led to a completion, the completions,
/// and the end of the message where it follows.
proof fn lemma_completion_round_trips(
    calls: Seq<CallState>,
    events: Seq<EventView>,
    produced: Seq<EventView>,
    closing: Seq<EventView>,
)
    requires
        gathering(calls, events),
        completes_of(calls, produced),
        closing.len() == 0 || closing == seq![EventView::MessageEnd],
    ensures
        round_trips(events + produced + closing),
        ends_last(events + produced + closing),
        starts_at_most_twice(events + produced + closing),
        completions_come_last(events + produced + closing),
{
    let all = events + produced + closing;
    assert forall|j: int, k: int|
        0 <= j < k < all.len() && #[trigger] all[j] is ToolCallComplete implies (
        #[trigger] all[k] is ToolCallComplete || all[k] is MessageEnd) by {
        if j < events.len() {
            assert(all[j] == events[j]);
        } else if k < events.len() + produced.len() {
            assert(all[k] == produced[k - events.len()]);
        } else {
            assert(all[k] == closing[k - events.len() - produced.len()]);
        }
    }
    lemma_gathering_starts(calls, events);
    assert(no_starts(produced));
    lemma_starts_stay(events, produced);
    lemma_starts_stay(events + produced, closing);
    assert forall|k: int| 0 <= k < all.len() && #[trigger] all[k] is MessageEnd implies k
        == all.len() - 1 by {
        if k < events.len() {
            assert(all[k] == events[k]);
        } else if k < events.len() + produced.len() {
            assert(all[k] == produced[k - events.len()]);
        }
    }
    assert(no_arguments(closing));
    assert(no_arguments(produced));
    assert forall|k: int| 0 <= k < all.len() implies match #[trigger] all[k] {
        EventView::ToolCallComplete { index, arguments, .. } => writes(argument_text(all, index), arguments),
        _ => true,
    } by {
        if k < events.len() {
            assert(all[k] == events[k]);
        } else if k < events.len() + produced.len() {
            let event = produced[k - events.len()];
            assert(all[k] == event);
            match event {
                EventView::ToolCallComplete { index, arguments, .. } => {
                    let i = choose|i: int|
                        0 <= i < calls.len() && (#[trigger] calls[i]).index == index
                            && writes(calls[i].arguments, arguments);
                    lemma_argument_text_concat(events + produced, closing, index);
                    lemma_argument_text_concat(events, produced, index);
                    lemma_no_arguments_no_text(produced, index);
                    lemma_no_arguments_no_text(closing, index);
                    assert(argument_text(events, index) + Seq::<char>::empty()
                        + Seq::<char>::empty() =~= argument_text(events, index));
                },
                _ => {},
            }
        } else {
            assert(all[k] == closing[k - events.len() - produced.len()]);
        }
    }
}

/// Events that touch no call keep the accumulators in step with the
/// events.
proof fn lemma_quiet_events_keep_gathering(
    calls: Seq<CallState>,
    events: Seq<EventView>,
    quiet: Seq<EventView>,
)
    requires
        gathering(calls, events),
        no_arguments(quiet),
        no_completion(quiet),
        no_end(quiet),
        no_starts(quiet),
    ensures
        gathering(calls, events + quiet),
{
    let grown = events + quiet;
    assert forall|i: int| 0 <= i < calls.len() implies start_count(
        grown,
        (#[trigger] calls[i]).index,
    ) == starts_of(calls[i]) by {
        lemma_start_count_concat(events, quiet, calls[i].index);
        lemma_no_starts_no_count(quiet, calls[i].index);
    }
    assert forall|index: usize| !has_call(calls, index) implies #[trigger] start_count(
        grown,
        index,
    ) == 0 by {
        lemma_start_count_concat(events, quiet, index);
        lemma_no_starts_no_count(quiet, index);
        assert(start_count(events, index) == 0);
    }
    assert forall|k: int| 0 <= k < grown.len() implies !(#[trigger] grown[k] is MessageEnd) by {
        if k < events.len() {
            assert(grown[k] == events[k]);
        } else {
            assert(grown[k] == quiet[k - events.len()]);
        }
    }
    assert forall|i: int| 0 <= i < calls.len() implies (#[trigger] calls[i]).arguments
        == argument_text(grown, calls[i].index) by {
        lemma_argument_text_concat(events, quiet, calls[i].index);
        lemma_no_arguments_no_text(quiet, calls[i].index);
        assert(argument_text(events, calls[i].index) + Seq::<char>::empty() =~= argument_text(
            events,
            calls[i].index,
        ));
    }
    assert forall|index: usize| !has_call(calls, index) implies #[trigger] argument_text(
        grown,
        index,
    ) == Seq::<char>::empty() by {
        lemma_argument_text_concat(events, quiet, index);
        lemma_no_arguments_no_text(quiet, index);
        assert(argument_text(events, index) == Seq::<char>::empty());
        assert(Seq::<char>::empty() + Seq::<char>::empty() =~= Seq::<char>::empty());
    }
    assert forall|k: int| 0 <= k < grown.len() implies !(
    #[trigger] grown[k] is ToolCallComplete) by {
        if k < events.len() {
            assert(grown[k] == events[k]);
        } else {
            assert(grown[k] == quiet[k - events.len()]);
        }
    }
}

/// The laws hold of events that completed no call, followed by the end of
/// the message.
proof fn lemma_ending_round_trips(calls: Seq<CallState>, events: Seq<EventView>)
    requires
        gathering(calls, events),
    ensures
        round_trips(events + seq![EventView::MessageEnd]),
        ends_last(events + seq![EventView::MessageEnd]),
        starts_at_most_twice(events + seq![EventView::MessageEnd]),
        completions_come_last(events + seq![EventView::MessageEnd]),
{
    let quiet = seq![EventView::MessageEnd];
    let grown = events + quiet;
    lemma_gathering_starts(calls, events);
    lemma_starts_stay(events, quiet);
    assert forall|k: int| 0 <= k < grown.len() && #[trigger] grown[k] is MessageEnd implies k
        == grown.len() - 1 by {
        if k < events.len() {
            assert(grown[k] == events[k]);
        }
    }
    assert forall|k: int| 0 <= k < grown.len() implies !(
    #[trigger] grown[k] is ToolCallComplete) by {
        if k < events.len() {
            assert(grown[k] == events[k]);
        } else {
            assert(grown[k] == quiet[k - events.len()]);
        }
    }
}

/// One choice keeps state and events consistent.
proof fn lemma_choice_keeps_consistent(
    state: InterpreterState,
    events: Seq<EventView>,
    choice: ChoiceDelta,
)
    requires
        consistent(state, events),
    ensures
        consistent(choice_step(state, choice).state, events + choice_step(state, choice).events),
{
    if state.finished || choice.index != 0 {
        assert(events + Seq::<EventView>::empty() =~= events);
    } else {
        let text = text_events(choice.content);
        lemma_quiet_events_keep_gathering(state.calls, events, text);
        lemma_fragments_keep_gathering(state.calls, events + text, choice.tool_calls);
        let progress = apply_fragments(state.calls, choice.tool_calls);
        let gathered = events + text + progress.events;
        assert(gathered =~= events + (text + progress.events));
        match choice.finish_reason {
            None => {},
            Some(FinishReason::ToolCalls) => {
                let done = complete_all(progress.calls);
                lemma_complete_all_completes(progress.calls);
                if done.failed {
                    lemma_completion_round_trips(
                        progress.calls,
                        gathered,
                        done.events,
                        Seq::empty(),
                    );
                    assert(gathered + done.events + Seq::<EventView>::empty() =~= events + ((text
                        + progress.events) + done.events));
                } else {
                    lemma_completion_round_trips(
                        progress.calls,
                        gathered,
                        done.events,
                        seq![EventView::MessageEnd],
                    );
                    assert(gathered + done.events + seq![EventView::MessageEnd] =~= events + ((
                    text + progress.events) + done.events).push(EventView::MessageEnd));
                }
            },
            Some(_) => {
                lemma_ending_round_trips(progress.calls, gathered);
                assert(gathered + seq![EventView::MessageEnd] =~= events + (text
                    + progress.events).push(EventView::MessageEnd));
            },
        }
    }
}

/// One chunk keeps state and events consistent.
proof fn lemma_chunk_keeps_consistent(
    state: InterpreterState,
    events: Seq<EventView>,
    choices: Seq<ChoiceDelta>,
)
    requires
        consistent(state, events),
    ensures
        consistent(chunk_step(state, choices).state, events + chunk_step(state, choices).events),
    decreases choices.len(),
{
    if choices.len() == 0 {
        assert(events + Seq::<EventView>::empty() =~= events);
    } else {
        let before = chunk_step(state, choices.drop_last());
        lemma_chunk_keeps_consistent(state, events, choices.drop_last());
        lemma_choice_keeps_consistent(before.state, events + before.events, choices.last());
        let last = choice_step(before.state, choices.last());
        assert((events + before.events) + last.events =~= events + (before.events + last.events));
    }
}

/// A sequence of chunks keeps state and events consistent.
proof fn lemma_stream_keeps_consistent(
    state: InterpreterState,
    events: Seq<EventView>,
    chunks: Seq<Seq<ChoiceDelta>>,
)
    requires
        consistent(state, events),
    ensures
        consistent(
            stream_step(state, chunks).state,
            events + stream_step(state, chunks).events,
        ),
    decreases chunks.len(),
{
    if chunks.len() == 0 {
        assert(events + Seq::<EventView>::empty() =~= events);
    } else {
        let before = stream_step(state, chunks.drop_last());
        lemma_stream_keeps_consistent(state, events, chunks.drop_last());
        lemma_chunk_keeps_consistent(before.state, events + before.events, chunks.last());
        let last = chunk_step(before.state, chunks.last());
        assert((events + before.events) + last.events =~= events + (before.events + last.events));
    }
}

/// A stream that begins in the initial state is consistent throughout.
proof fn lemma_stream_is_consistent(chunks: Seq<Seq<ChoiceDelta>>)
    ensures
        consistent(
            stream_step(initial_state(), chunks).state,
            stream_step(initial_state(), chunks).events,
        ),
{
    let none = Seq::<EventView>::empty();
    assert(gathering(initial_state().calls, none)) by {
        assert forall|index: usize| !has_call(initial_state().calls, index) implies 
            #[trigger] argument_text(none, index) == Seq::<char>::empty() by {}
        assert forall|index: usize| !has_call(initial_state().calls, index) implies 
            #[trigger] start_count(none, index) == 0 by {}
    }
    lemma_stream_keeps_consistent(initial_state(), none, chunks);
    assert(none + stream_step(initial_state(), chunks).events =~= stream_step(
        initial_state(),
        chunks,
    ).events);
}

/// Whatever chunks a stream is made of, every call that it completes
/// carries the document that the argument deltas for its index, joined in
/// order, write.
pub proof fn lemma_arguments_round_trip(chunks: Seq<Seq<ChoiceDelta>>)
    ensures
        round_trips(stream_step(initial_state(), chunks).events),
{
    lemma_stream_is_consistent(chunks);
    let run = stream_step(initial_state(), chunks);
    if !run.state.finished {
        assert(no_completion(run.events));
    }
}

/// Whatever chunks a stream is made of, the end of the message is
/// announced at most once, and no event follows it.
pub proof fn lemma_message_end_is_last(chunks: Seq<Seq<ChoiceDelta>>)
    ensures
        ends_last(stream_step(initial_state(), chunks).events),
{
    lemma_stream_is_consistent(chunks);
    let run = stream_step(initial_state(), chunks);
    if !run.state.finished {
        assert(no_end(run.events));
    }
}

/// Whatever chunks a stream is made of, no call is started more than
/// twice: an identifier starts it once and a name starts it once, however
/// often either is repeated.
pub proof fn lemma_starts_at_most_twice(chunks: Seq<Seq<ChoiceDelta>>)
    ensures
        starts_at_most_twice(stream_step(initial_state(), chunks).events),
{
    lemma_stream_is_consistent(chunks);
    let run = stream_step(initial_state(), chunks);
    if !run.state.finished {
        lemma_gathering_starts(run.state.calls, run.events);
    }
}

/// Whatever chunks a stream is made of, the completion of a call follows
/// every delta and every start: once a call is completed nothing comes but
/// further completions and the end of the message.
pub proof fn lemma_completions_come_last(chunks: Seq<Seq<ChoiceDelta>>)
    ensures
        completions_come_last(stream_step(initial_state(), chunks).events),
{
    lemma_stream_is_consistent(chunks);
    let run = stream_step(initial_state(), chunks);
    if !run.state.finished {
        assert(no_completion(run.events));
    }
}

/// Whether every delta is preceded by a start for the same call.
pub open spec fn deltas_follow_starts(events: Seq<EventView>) -> bool {
    forall|k: int|
        0 <= k < events.len() ==> match #[trigger] events[k] {
            EventView::ToolCallArgumentsDelta { index, .. } => exists|j: int|
                0 <= j < k && #[trigger] is_start(events[j], index),
            _ => true,
        }
}

/// Whether `piece` brings no argument text to a call of which nothing is
/// known: where it brings text that is not empty, the call has an
/// identifier or a name, or the piece brings one.
pub open spec fn is_announced(call: CallState, piece: ToolCallFragment) -> bool {
    (piece.arguments matches Some(text) && text.len() > 0) ==> (call.id is Some || call.name is Some
        || piece.id is Some || piece.name is Some)
}

/// Whether `piece` is announced to the accumulator that absorbs it.
pub open spec fn piece_announced(calls: Seq<CallState>, piece: ToolCallFragment) -> bool {
    let at = slot(calls, piece.index);
    if at < calls.len() {
        is_announced(calls[at], piece)
    } else {
        is_announced(fresh_call(piece.index), piece)
    }
}

/// Whether every one of `pieces` is announced when its turn comes.
pub open spec fn pieces_announced(calls: Seq<CallState>, pieces: Seq<ToolCallFragment>) -> bool
    decreases pieces.len(),
{
    if pieces.len() == 0 {
        true
    } else {
        pieces_announced(calls, pieces.drop_last()) && piece_announced(
            apply_fragments(calls, pieces.drop_last()).calls,
            pieces.last(),
        )
    }
}

/// Whether every piece of `choice` is announced, where the choice counts
/// at all.
pub open spec fn choice_announced(state: InterpreterState, choice: ChoiceDelta) -> bool {
    state.finished || choice.index != 0 || pieces_announced(state.calls, choice.tool_calls)
}

/// Whether every piece of one chunk is announced when its turn comes.
pub open spec fn chunk_announced(state: InterpreterState, choices: Seq<ChoiceDelta>) -> bool
    decreases choices.len(),
{
    if choices.len() == 0 {
        true
    } else {
        chunk_announced(state, choices.drop_last()) && choice_announced(
            chunk_step(state, choices.drop_last()).state,
            choices.last(),
        )
    }
}

/// Whether every piece of a stream is announced when its turn comes: no
/// argument text reaches a call before an identifier or a name has.
pub open spec fn stream_announced(state: InterpreterState, chunks: Seq<Seq<ChoiceDelta>>) -> bool
    decreases chunks.len(),
{
    if chunks.len() == 0 {
        true
    } else {
        stream_announced(state, chunks.drop_last()) && chunk_announced(
            stream_step(state, chunks.drop_last()).state,
            chunks.last(),
        )
    }
}

/// A call that was started has a start among the events.
proof fn lemma_start_exists(events: Seq<EventView>, index: usize)
    requires
        start_count(events, index) > 0,
    ensures
        exists|j: int| 0 <= j < events.len() && #[trigger] is_start(events[j], index),
    decreases events.len(),
{
    if is_start(events.last(), index) {
        assert(is_start(events[events.len() - 1], index));
    } else {
        lemma_start_exists(events.drop_last(), index);
        let j = choose|j: int|
            0 <= j < events.drop_last().len() && #[trigger] is_start(
                events.drop_last()[j],
                index,
            );
        assert(events[j] == events.drop_last()[j]);
        assert(is_start(events[j], index));
    }
}

/// Events that pass on no argument text keep every delta behind a start.
proof fn lemma_quiet_events_keep_order(head: Seq<EventView>, tail: Seq<EventView>)
    requires
        deltas_follow_starts(head),
        no_arguments(tail),
    ensures
        deltas_follow_starts(head + tail),
{
    let all = head + tail;
    assert forall|k: int| 0 <= k < all.len() implies match #[trigger] all[k] {
        EventView::ToolCallArgumentsDelta { index, .. } => exists|j: int|
            0 <= j < k && #[trigger] is_start(all[j], index),
        _ => true,
    } by {
        if k < head.len() {
            assert(all[k] == head[k]);
            match head[k] {
                EventView::ToolCallArgumentsDelta { index, .. } => {
                    let j = choose|j: int| 0 <= j < k && #[trigger] is_start(head[j], index);
                    assert(all[j] == head[j]);
                    assert(is_start(all[j], index));
                },
                _ => {},
            }
        } else {
            assert(all[k] == tail[k - head.len()]);
        }
    }
}

/// One announced piece keeps every delta behind a start.
proof fn lemma_fragment_keeps_order(
    calls: Seq<CallState>,
    events: Seq<EventView>,
    piece: ToolCallFragment,
)
    requires
        gathering(calls, events),
        deltas_follow_starts(events),
        piece_announced(calls, piece),
    ensures
        deltas_follow_starts(events + apply_fragment(calls, piece).events),
{
    let at = slot(calls, piece.index);
    lemma_slot_is_first(calls, piece.index);
    let call = if at < calls.len() {
        calls[at]
    } else {
        fresh_call(piece.index)
    };
    let with_id = if piece.id is Some {
        CallState { id: piece.id, ..call }
    } else {
        call
    };
    let id_events = if piece.id is Some && call.id is None {
        seq![EventView::ToolCallStart { index: call.index, id: piece.id, name: call.name }]
    } else {
        Seq::empty()
    };
    let name_events = if piece.name is Some && with_id.name is None {
        seq![EventView::ToolCallStart { index: call.index, id: with_id.id, name: piece.name }]
    } else {
        Seq::empty()
    };
    let argument_events = match piece.arguments {
        Some(text) => if text.len() > 0 {
            seq![EventView::ToolCallArgumentsDelta { index: call.index, fragment: text }]
        } else {
            Seq::empty()
        },
        None => Seq::empty(),
    };
    let starts = id_events + name_events;
    let added = apply_fragment(calls, piece).events;
    assert(added == starts + argument_events);
    assert(no_arguments(starts));
    lemma_quiet_events_keep_order(events, starts);
    let all = events + starts + argument_events;
    assert(all =~= events + added);
    assert forall|k: int| 0 <= k < all.len() implies match #[trigger] all[k] {
        EventView::ToolCallArgumentsDelta { index, .. } => exists|j: int|
            0 <= j < k && #[trigger] is_start(all[j], index),
        _ => true,
    } by {
        let sofar = events + starts;
        if k < sofar.len() {
            assert(all[k] == sofar[k]);
            match sofar[k] {
                EventView::ToolCallArgumentsDelta { index, .. } => {
                    let j = choose|j: int| 0 <= j < k && #[trigger] is_start(sofar[j], index);
                    assert(all[j] == sofar[j]);
                    assert(is_start(all[j], index));
                },
                _ => {},
            }
        } else {
            assert(all[k] == argument_events[k - sofar.len()]);
            assert(k == sofar.len());
            assert(all[k] matches EventView::ToolCallArgumentsDelta { index, .. } && index
                == call.index);
            assert(is_announced(call, piece));
            if starts.len() > 0 {
                let j = events.len() as int;
                assert(all[j] == starts[0]);
                assert(is_start(all[j], call.index));
            } else {
                assert(call.id is Some || call.name is Some);
                assert(at < calls.len());
                assert(start_count(events, calls[at].index) == starts_of(calls[at]));
                lemma_start_exists(events, call.index);
                let j = choose|j: int|
                    0 <= j < events.len() && #[trigger] is_start(events[j], call.index);
                assert(all[j] == events[j]);
                assert(is_start(all[j], call.index));
            }
        }
    }
}

/// A list of announced pieces keeps every delta behind a start.
proof fn lemma_fragments_keep_order(
    calls: Seq<CallState>,
    events: Seq<EventView>,
    pieces: Seq<ToolCallFragment>,
)
    requires
        gathering(calls, events),
        deltas_follow_starts(events),
        pieces_announced(calls, pieces),
    ensures
        deltas_follow_starts(events + apply_fragments(calls, pieces).events),
    decreases pieces.len(),
{
    if pieces.len() == 0 {
        assert(events + Seq::<EventView>::empty() =~= events);
    } else {
        let before = apply_fragments(calls, pieces.drop_last());
        lemma_fragments_keep_order(calls, events, pieces.drop_last());
        lemma_fragments_keep_gathering(calls, events, pieces.drop_last());
        lemma_fragment_keeps_order(before.calls, events + before.events, pieces.last());
        let last = apply_fragment(before.calls, pieces.last());
        assert((events + before.events) + last.events =~= events + (before.events + last.events));
    }
}

/// One announced choice keeps every delta behind a start.
proof fn lemma_choice_keeps_order(
    state: InterpreterState,
    events: Seq<EventView>,
    choice: ChoiceDelta,
)
    requires
        consistent(state, events),
        deltas_follow_starts(events),
        choice_announced(state, choice),
    ensures
        deltas_follow_starts(events + choice_step(state, choice).events),
{
    if state.finished || choice.index != 0 {
        assert(events + Seq::<EventView>::empty() =~= events);
    } else {
        let text = text_events(choice.content);
        lemma_quiet_events_keep_gathering(state.calls, events, text);
        lemma_quiet_events_keep_order(events, text);
        lemma_fragments_keep_order(state.calls, events + text, choice.tool_calls);
        let progress = apply_fragments(state.calls, choice.tool_calls);
        let gathered = events + text + progress.events;
        assert(gathered =~= events + (text + progress.events));
        let end = seq![EventView::MessageEnd];
        match choice.finish_reason {
            None => {},
            Some(FinishReason::ToolCalls) => {
                let done = complete_all(progress.calls);
                lemma_complete_all_completes(progress.calls);
                assert(no_arguments(done.events));
                lemma_quiet_events_keep_order(gathered, done.events);
                if done.failed {
                    assert(gathered + done.events =~= events + ((text + progress.events)
                        + done.events));
                } else {
                    lemma_quiet_events_keep_order(gathered + done.events, end);
                    assert(gathered + done.events + end =~= events + ((text + progress.events)
                        + done.events).push(EventView::MessageEnd));
                }
            },
            Some(_) => {
                lemma_quiet_events_keep_order(gathered, end);
                assert(gathered + end =~= events + (text + progress.events).push(
                    EventView::MessageEnd,
                ));
            },
        }
    }
}

/// One announced chunk keeps every delta behind a start.
proof fn lemma_chunk_keeps_order(
    state: InterpreterState,
    events: Seq<EventView>,
    choices: Seq<ChoiceDelta>,
)
    requires
        consistent(state, events),
        deltas_follow_starts(events),
        chunk_announced(state, choices),
    ensures
        deltas_follow_starts(events + chunk_step(state, choices).events),
    decreases choices.len(),
{
    if choices.len() == 0 {
        assert(events + Seq::<EventView>::empty() =~= events);
    } else {
        let before = chunk_step(state, choices.drop_last());
        lemma_chunk_keeps_order(state, events, choices.drop_last());
        lemma_chunk_keeps_consistent(state, events, choices.drop_last());
        lemma_choice_keeps_order(before.state, events + before.events, choices.last());
        let last = choice_step(before.state, choices.last());
        assert((events + before.events) + last.events =~= events + (before.events + last.events));
    }
}

/// An announced sequence of chunks keeps every delta behind a start.
proof fn lemma_stream_keeps_order(
    state: InterpreterState,
    events: Seq<EventView>,
    chunks: Seq<Seq<ChoiceDelta>>,
)
    requires
        consistent(state, events),
        deltas_follow_starts(events),
        stream_announced(state, chunks),
    ensures
        deltas_follow_starts(events + stream_step(state, chunks).events),
    decreases chunks.len(),
{
    if chunks.len() == 0 {
        assert(events + Seq::<EventView>::empty() =~= events);
    } else {
        let before = stream_step(state, chunks.drop_last());
        lemma_stream_keeps_order(state, events, chunks.drop_last());
        lemma_stream_keeps_consistent(state, events, chunks.drop_last());
        lemma_chunk_keeps_order(before.state, events + before.events, chunks.last());
        let last = chunk_step(before.state, chunks.last());
        assert((events + before.events) + last.events =~= events + (before.events + last.events));
    }
}

/// In a stream in which no argument text reaches a call before an
/// identifier or a name has, every delta is preceded by a start for the
/// same call. Where argument text comes first, its delta comes first too.
pub proof fn lemma_deltas_follow_starts(chunks: Seq<Seq<ChoiceDelta>>)
    requires
        stream_announced(initial_state(), chunks),
    ensures
        deltas_follow_starts(stream_step(initial_state(), chunks).events),
{
    let none = Seq::<EventView>::empty();
    assert(gathering(initial_state().calls, none)) by {
        assert forall|index: usize| !has_call(initial_state().calls, index) implies 
            #[trigger] argument_text(none, index) == Seq::<char>::empty() by {}
        assert forall|index: usize| !has_call(initial_state().calls, index) implies 
            #[trigger] start_count(none, index) == 0 by {}
    }
    lemma_stream_keeps_order(initial_state(), none, chunks);
    assert(none + stream_step(initial_state(), chunks).events =~= stream_step(
        initial_state(),
        chunks,
    ).events);
}

/// Once the message has ended, further chunks change nothing and give rise
/// to nothing.
pub proof fn lemma_nothing_after_the_end(state: InterpreterState, choices: Seq<ChoiceDelta>)
    requires
        state.finished,
    ensures
        chunk_step(state, choices).state == state,
        chunk_step(state, choices).events == Seq::<EventView>::empty(),
        !chunk_step(state, choices).failed,
    decreases choices.len(),
{
    if choices.len() > 0 {
        lemma_nothing_after_the_end(state, choices.drop_last());
        assert(Seq::<EventView>::empty() + Seq::<EventView>::empty() =~= Seq::<EventView>::empty());
    }
}

} // verus!
