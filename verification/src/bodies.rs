//! What holds of the calls of a module whose function bodies begin and end in
//! turn.

use crate::event::PositionedEventView;
use crate::index::index_module;
use crate::invariants::{
    bodies_before, body_start_before, calls_before, first_end, lemma_calls_follow_the_bodies,
    lemma_first_end, lemma_same_body,
};
use vstd::prelude::*;

verus! {

/// Whether a function body is open behind the first `k` events: one has
/// begun among them, and none has begun or ended since.
pub open spec fn in_body(events: Seq<PositionedEventView>, k: nat) -> bool
    decreases k,
{
    if k == 0 {
        false
    } else if events[k - 1].event is BeginFunctionBody {
        true
    } else if events[k - 1].event is EndFunctionBody {
        false
    } else {
        in_body(events, (k - 1) as nat)
    }
}

/// Whether, up to the end of the module, function bodies begin and end in
/// turn and direct calls are reported inside a body only: a body begins
/// while none is open, a body ends and a call is reported while one is open,
/// and none is open at the end of the module.
pub open spec fn bodies_are_delimited(events: Seq<PositionedEventView>) -> bool {
    &&& !in_body(events, first_end(events, 0))
    &&& forall|j: int|
        0 <= j < first_end(events, 0) && (#[trigger] events[j]).event is BeginFunctionBody
            ==> !in_body(events, j as nat)
    &&& forall|j: int|
        0 <= j < first_end(events, 0) && (#[trigger] events[j]).event is EndFunctionBody
            ==> in_body(events, j as nat)
    &&& forall|j: int|
        0 <= j < first_end(events, 0) && (#[trigger] events[j]).event is Call ==> in_body(
            events,
            j as nat,
        )
}

/// Whether, up to the end of the module, no two function bodies are reported
/// at the same position.
pub open spec fn bodies_begin_apart(events: Seq<PositionedEventView>) -> bool {
    forall|i: int, j: int|
        0 <= i < j < first_end(events, 0) && (#[trigger] events[i]).event is BeginFunctionBody && (
        #[trigger] events[j]).event is BeginFunctionBody ==> events[i].position
            != events[j].position
}

/// The place of the last beginning of a function body among the first `k`
/// events; `-1` where there is none.
pub open spec fn last_begin(events: Seq<PositionedEventView>, k: nat) -> int
    decreases k,
{
    if k == 0 {
        -1
    } else if events[k - 1].event is BeginFunctionBody {
        k - 1
    } else {
        last_begin(events, (k - 1) as nat)
    }
}

/// The function bodies that end among the first `j` events are at most those
/// among the first `k`, and fewer where the `j`-th event is such an end.
proof fn lemma_bodies_before_grows(events: Seq<PositionedEventView>, j: nat, k: nat)
    requires
        j <= k,
    ensures
        bodies_before(events, j) <= bodies_before(events, k),
        j < k && events[j as int].event is EndFunctionBody ==> bodies_before(events, j)
            < bodies_before(events, k),
    decreases k,
{
    if j < k {
        lemma_bodies_before_grows(events, j, (k - 1) as nat);
    }
}

/// The direct call with a given place among the calls is one of the events.
proof fn lemma_call_event(events: Seq<PositionedEventView>, k: nat, c: nat) -> (j: nat)
    requires
        c < calls_before(events, k),
    ensures
        j < k,
        events[j as int].event is Call,
        calls_before(events, j) == c,
    decreases k,
{
    if events[k - 1].event is Call && calls_before(events, (k - 1) as nat) == c {
        (k - 1) as nat
    } else {
        lemma_call_event(events, (k - 1) as nat, c)
    }
}

/// A body that is open stays open until a body ends.
proof fn lemma_body_stays_open(events: Seq<PositionedEventView>, from: nat, to: nat)
    requires
        from <= to,
        in_body(events, from),
        forall|m: int| from <= m < to ==> !((#[trigger] events[m]).event is EndFunctionBody),
    ensures
        in_body(events, to),
    decreases to,
{
    if from < to {
        lemma_body_stays_open(events, from, (to - 1) as nat);
    }
}

/// No body is open until one begins.
proof fn lemma_body_stays_closed(events: Seq<PositionedEventView>, from: nat, to: nat)
    requires
        from <= to,
        !in_body(events, from),
        forall|m: int| from <= m < to ==> !((#[trigger] events[m]).event is BeginFunctionBody),
    ensures
        !in_body(events, to),
    decreases to,
{
    if from < to {
        lemma_body_stays_closed(events, from, (to - 1) as nat);
    }
}

/// Between a place where a body is open and a later one where none is, a
/// body ends.
proof fn lemma_open_body_ends(events: Seq<PositionedEventView>, from: nat, to: nat)
    requires
        from <= to,
        in_body(events, from),
        !in_body(events, to),
    ensures
        bodies_before(events, from) < bodies_before(events, to),
    decreases to,
{
    if events[to - 1].event is EndFunctionBody {
        lemma_bodies_before_grows(events, from, (to - 1) as nat);
    } else {
        lemma_open_body_ends(events, from, (to - 1) as nat);
    }
}

/// The last beginning of a body among the first `k` events is a beginning
/// of a body, no body begins behind it, its position is the body position
/// there, and there is one where a body is open.
proof fn lemma_last_begin(events: Seq<PositionedEventView>, k: nat)
    ensures
        -1 <= last_begin(events, k) < k,
        in_body(events, k) ==> last_begin(events, k) >= 0,
        last_begin(events, k) >= 0 ==> events[last_begin(events, k)].event is BeginFunctionBody
            && body_start_before(events, k) == events[last_begin(events, k)].position,
        forall|m: int|
            last_begin(events, k) < m < k ==> !((#[trigger] events[m]).event is BeginFunctionBody),
    decreases k,
{
    if k > 0 {
        lemma_last_begin(events, (k - 1) as nat);
    }
}

/// Two direct calls of a module whose bodies begin and end in turn, each at
/// a position of its own, are met in bodies of the same ordinal if and only
/// if they are met in bodies of the same position.
proof fn lemma_same_ordinal_same_position(
    events: Seq<PositionedEventView>,
    first: nat,
    second: nat,
)
    requires
        bodies_are_delimited(events),
        bodies_begin_apart(events),
        first <= second < first_end(events, 0),
        events[first as int].event is Call,
        events[second as int].event is Call,
    ensures
        bodies_before(events, first) == bodies_before(events, second) <==> body_start_before(
            events,
            first,
        ) == body_start_before(events, second),
{
    lemma_first_end(events, 0);
    if bodies_before(events, first) == bodies_before(events, second) {
        assert forall|m: int| first <= m < second implies !((
        #[trigger] events[m]).event is EndFunctionBody) by {
            if events[m].event is EndFunctionBody {
                lemma_bodies_before_grows(events, first, m as nat);
                lemma_bodies_before_grows(events, m as nat, second);
            }
        }
        assert forall|m: int| first <= m < second implies !((
        #[trigger] events[m]).event is BeginFunctionBody) by {
            if events[m].event is BeginFunctionBody {
                lemma_body_stays_open(events, first, m as nat);
            }
        }
        lemma_same_body(events, first, second);
    }
    if body_start_before(events, first) == body_start_before(events, second) {
        lemma_last_begin(events, first);
        lemma_last_begin(events, second);
        assert(last_begin(events, first) == last_begin(events, second));
        assert forall|m: int| first <= m < second implies !((
        #[trigger] events[m]).event is EndFunctionBody) by {
            if events[m].event is EndFunctionBody {
                lemma_body_stays_closed(events, (m + 1) as nat, second);
            }
        }
        lemma_same_body(events, first, second);
    }
}

/// In a module whose function bodies begin and end in turn, with the direct
/// calls inside them, the ordinal of every recorded call is below the number
/// of function bodies.
pub proof fn lemma_call_ordinals_are_below_the_bodies(
    events: Seq<PositionedEventView>,
    bytes: Seq<u8>,
)
    requires
        index_module(events, bytes).is_some(),
        bodies_are_delimited(events),
    ensures
        ({
            let calls = index_module(events, bytes).unwrap().calls;
            forall|c: int|
                0 <= c < calls.len() ==> (#[trigger] calls[c]).function_body_index < bodies_before(
                    events,
                    first_end(events, 0),
                )
        }),
{
    let calls = index_module(events, bytes).unwrap().calls;
    let end = first_end(events, 0);
    lemma_calls_follow_the_bodies(events, bytes);
    lemma_first_end(events, 0);
    assert forall|c: int| 0 <= c < calls.len() implies (#[trigger] calls[c]).function_body_index
        < bodies_before(events, end) by {
        let j = lemma_call_event(events, end, c as nat);
        lemma_open_body_ends(events, j, end);
    }
}

/// In a module whose function bodies begin and end in turn, each at a
/// position of its own, with the direct calls inside them, two recorded
/// calls have the same ordinal if and only if they have the same body
/// position: the two stand for one body.
pub proof fn lemma_ordinal_and_body_position_agree(
    events: Seq<PositionedEventView>,
    bytes: Seq<u8>,
)
    requires
        index_module(events, bytes).is_some(),
        bodies_are_delimited(events),
        bodies_begin_apart(events),
    ensures
        ({
            let calls = index_module(events, bytes).unwrap().calls;
            forall|c: int, d: int|
                0 <= c < calls.len() && 0 <= d < calls.len() ==> ((
                #[trigger] calls[c]).function_body_index == (
                #[trigger] calls[d]).function_body_index <==> calls[c].function_body_position
                    == calls[d].function_body_position)
        }),
{
    let calls = index_module(events, bytes).unwrap().calls;
    let end = first_end(events, 0);
    lemma_calls_follow_the_bodies(events, bytes);
    assert forall|c: int, d: int| 0 <= c < calls.len() && 0 <= d < calls.len() implies ((
    #[trigger] calls[c]).function_body_index == (#[trigger] calls[d]).function_body_index
        <==> calls[c].function_body_position == calls[d].function_body_position) by {
        let j = lemma_call_event(events, end, c as nat);
        let k = lemma_call_event(events, end, d as nat);
        if j <= k {
            lemma_same_ordinal_same_position(events, j, k);
        } else {
            lemma_same_ordinal_same_position(events, k, j);
        }
    }
}

} // verus!
