//! What holds of every index that a walk yields.

use crate::event::{PositionedEventView, WasmValueType};
use crate::fixup::{
    entries_length, entries_start, first_section, lemma_last_signature_end,
    lemma_type_signatures_contiguous, lie_contiguous,
};
use crate::index::{callees_exist, index_module, walk_from};
use crate::model::{ModuleIndex, WasmCall, WasmFunction, WasmSectionCode, WasmTypeSignature};
use crate::walk::{has_i64, step, WalkState};
use vstd::prelude::*;

verus! {

/// The number of events before the first end of the module at or after
/// `from`; the number of all events where there is no such end.
pub open spec fn first_end(events: Seq<PositionedEventView>, from: nat) -> nat
    decreases events.len() - from,
{
    if from >= events.len() {
        events.len()
    } else if events[from as int].event is EndWasm {
        from
    } else {
        first_end(events, from + 1)
    }
}

/// Whether each function carries its place in the list as its index.
pub open spec fn indexed_in_order(functions: Seq<WasmFunction>) -> bool {
    forall|i: int| 0 <= i < functions.len() ==> (#[trigger] functions[i]).function_index == i
}

/// Whether no imported function stands behind a function that the module
/// defines.
spec fn imports_lead(functions: Seq<WasmFunction>) -> bool {
    forall|a: int, b: int|
        0 <= a < b < functions.len() && (#[trigger] functions[b]).is_import ==> (
        #[trigger] functions[a]).is_import
}

/// The number of imported functions.
pub open spec fn import_count(functions: Seq<WasmFunction>) -> nat
    decreases functions.len(),
{
    if functions.len() == 0 {
        0
    } else if functions.last().is_import {
        import_count(functions.drop_last()) + 1
    } else {
        import_count(functions.drop_last())
    }
}

/// Whether a function that the module defines is among `functions`.
spec fn holds_declared(functions: Seq<WasmFunction>) -> bool {
    exists|a: int| 0 <= a < functions.len() && !(#[trigger] functions[a]).is_import
}

/// Whether a declaration of a function is among the first `k` events.
spec fn declares_before(events: Seq<PositionedEventView>, k: nat) -> bool {
    exists|i: int| 0 <= i < k && (#[trigger] events[i]).event is FunctionSectionEntry
}

/// Whether, up to the end of the module, no import of a function is reported
/// after a declaration of a function.
pub open spec fn imports_precede_declarations(events: Seq<PositionedEventView>) -> bool {
    forall|i: int, j: int|
        0 <= i < j < first_end(events, 0) && (#[trigger] events[i]).event is FunctionSectionEntry
            ==> !((#[trigger] events[j]).event is FunctionImport)
}

/// Whether the ordinals of the calls do not decrease.
pub open spec fn ordinals_do_not_decrease(calls: Seq<WasmCall>) -> bool {
    forall|i: int, j: int|
        0 <= i < j < calls.len() ==> (#[trigger] calls[i]).function_body_index <= (
        #[trigger] calls[j]).function_body_index
}

/// Whether the ordinals of the calls do not decrease, and none is above
/// `body_index`.
spec fn calls_in_body_order(calls: Seq<WasmCall>, body_index: usize) -> bool {
    &&& ordinals_do_not_decrease(calls)
    &&& forall|i: int|
        0 <= i < calls.len() ==> (#[trigger] calls[i]).function_body_index <= body_index
}

/// The number of direct calls among the first `k` events.
pub open spec fn calls_before(events: Seq<PositionedEventView>, k: nat) -> nat
    decreases k,
{
    if k == 0 {
        0
    } else if events[k - 1].event is Call {
        calls_before(events, (k - 1) as nat) + 1
    } else {
        calls_before(events, (k - 1) as nat)
    }
}

/// The number of function bodies that end among the first `k` events.
pub open spec fn bodies_before(events: Seq<PositionedEventView>, k: nat) -> nat
    decreases k,
{
    if k == 0 {
        0
    } else if events[k - 1].event is EndFunctionBody {
        bodies_before(events, (k - 1) as nat) + 1
    } else {
        bodies_before(events, (k - 1) as nat)
    }
}

/// The position of the last function body that begins among the first `k`
/// events; zero where none does.
pub open spec fn body_start_before(events: Seq<PositionedEventView>, k: nat) -> usize
    decreases k,
{
    if k == 0 {
        0
    } else if events[k - 1].event is BeginFunctionBody {
        events[k - 1].position
    } else {
        body_start_before(events, (k - 1) as nat)
    }
}

/// The first end of the module at or after `from` is not before `from`, and
/// no event between the two is an end of the module.
pub proof fn lemma_first_end(events: Seq<PositionedEventView>, from: nat)
    requires
        from <= events.len(),
    ensures
        from <= first_end(events, from) <= events.len(),
        forall|i: int|
            from <= i < first_end(events, from) ==> !((#[trigger] events[i]).event is EndWasm),
    decreases events.len() - from,
{
    if from < events.len() && !(events[from as int].event is EndWasm) {
        lemma_first_end(events, from + 1);
    }
}

/// A walk keeps the functions that were collected before it and adds to
/// them.
proof fn lemma_walk_keeps_functions(
    state: WalkState,
    events: Seq<PositionedEventView>,
    from: nat,
    bytes: Seq<u8>,
)
    requires
        walk_from(state, events, from, bytes).is_some(),
    ensures
        state.functions.len() <= walk_from(state, events, from, bytes).unwrap().functions.len(),
    decreases events.len() - from,
{
    if from < events.len() && !(events[from as int].event is EndWasm) {
        let next = step(state, events[from as int].position, events[from as int].event, bytes);
        lemma_walk_keeps_functions(next.unwrap(), events, from + 1, bytes);
    }
}

/// A walk gives each function that it adds the next index.
proof fn lemma_walk_indexes_functions(
    state: WalkState,
    events: Seq<PositionedEventView>,
    from: nat,
    bytes: Seq<u8>,
)
    requires
        walk_from(state, events, from, bytes).is_some(),
        walk_from(state, events, from, bytes).unwrap().functions.len() <= usize::MAX,
        indexed_in_order(state.functions),
    ensures
        indexed_in_order(walk_from(state, events, from, bytes).unwrap().functions),
    decreases events.len() - from,
{
    if from < events.len() && !(events[from as int].event is EndWasm) {
        let next = step(state, events[from as int].position, events[from as int].event, bytes);
        lemma_walk_keeps_functions(next.unwrap(), events, from + 1, bytes);
        lemma_walk_indexes_functions(next.unwrap(), events, from + 1, bytes);
    }
}

/// A walk over events in which imports precede declarations keeps the
/// imported functions in front.
proof fn lemma_walk_keeps_imports_first(
    state: WalkState,
    events: Seq<PositionedEventView>,
    from: nat,
    bytes: Seq<u8>,
)
    requires
        walk_from(state, events, from, bytes).is_some(),
        imports_precede_declarations(events),
        first_end(events, from) == first_end(events, 0),
        imports_lead(state.functions),
        holds_declared(state.functions) ==> declares_before(events, from),
    ensures
        imports_lead(walk_from(state, events, from, bytes).unwrap().functions),
    decreases events.len() - from,
{
    if from < events.len() && !(events[from as int].event is EndWasm) {
        let event = events[from as int];
        let next = step(state, event.position, event.event, bytes).unwrap();
        lemma_first_end(events, from + 1);
        if event.event is FunctionImport {
            assert(!holds_declared(state.functions)) by {
                if holds_declared(state.functions) {
                    let i = choose|i: int|
                        0 <= i < from && (#[trigger] events[i]).event is FunctionSectionEntry;
                    assert(!(events[from as int].event is FunctionImport));
                }
            }
        }
        lemma_walk_keeps_imports_first(next, events, from + 1, bytes);
    }
}

/// Where the imported functions stand in front, they are the functions
/// whose place is below the number of imported functions.
proof fn lemma_import_count(functions: Seq<WasmFunction>)
    requires
        imports_lead(functions),
    ensures
        import_count(functions) <= functions.len(),
        forall|i: int|
            0 <= i < functions.len() ==> ((#[trigger] functions[i]).is_import <==> i < import_count(
                functions,
            )),
    decreases functions.len(),
{
    if functions.len() > 0 {
        let front = functions.drop_last();
        assert(imports_lead(front));
        lemma_import_count(front);
        assert forall|i: int| 0 <= i < functions.len() implies ((#[trigger] functions[i]).is_import
            <==> i < import_count(functions)) by {
            if i < front.len() {
                assert(front[i] == functions[i]);
            }
        }
    }
}

/// A walk records the calls in the order of their bodies.
proof fn lemma_walk_orders_calls(
    state: WalkState,
    events: Seq<PositionedEventView>,
    from: nat,
    bytes: Seq<u8>,
)
    requires
        walk_from(state, events, from, bytes).is_some(),
        calls_in_body_order(state.calls, state.body_index),
    ensures
        calls_in_body_order(
            walk_from(state, events, from, bytes).unwrap().calls,
            walk_from(state, events, from, bytes).unwrap().body_index,
        ),
    decreases events.len() - from,
{
    if from < events.len() && !(events[from as int].event is EndWasm) {
        let next = step(state, events[from as int].position, events[from as int].event, bytes);
        lemma_walk_orders_calls(next.unwrap(), events, from + 1, bytes);
    }
}

/// Whether `state` holds what a walk has collected of calls and bodies when
/// it stands before the `k`-th event: a record for each direct call among
/// the events before, in their order, each with the position and the ordinal
/// of the body in which the call was met.
spec fn follows_bodies(
    state: WalkState,
    events: Seq<PositionedEventView>,
    k: nat,
) -> bool {
    &&& state.calls.len() == calls_before(events, k)
    &&& state.body_index == bodies_before(events, k)
    &&& state.body_position == body_start_before(events, k)
    &&& forall|j: int|
        0 <= j < k && (#[trigger] events[j]).event is Call ==> {
            let call = state.calls[calls_before(events, j as nat) as int];
            &&& call.position == events[j].position
            &&& call.function_index == events[j].event->Call_0
            &&& call.function_body_position == body_start_before(events, j as nat)
            &&& call.function_body_index == bodies_before(events, j as nat)
        }
}

/// The calls among the first `j` events are at most those among the first
/// `k`, and fewer where the `j`-th event is a call itself.
proof fn lemma_calls_before_grows(events: Seq<PositionedEventView>, j: nat, k: nat)
    requires
        j <= k,
    ensures
        calls_before(events, j) <= calls_before(events, k),
        j < k && events[j as int].event is Call ==> calls_before(events, j) < calls_before(
            events,
            k,
        ),
    decreases k,
{
    if j < k {
        lemma_calls_before_grows(events, j, (k - 1) as nat);
    }
}

/// A walk records each direct call with the body in which it was met.
proof fn lemma_walk_follows_bodies(
    state: WalkState,
    events: Seq<PositionedEventView>,
    from: nat,
    bytes: Seq<u8>,
)
    requires
        walk_from(state, events, from, bytes).is_some(),
        first_end(events, from) == first_end(events, 0),
        follows_bodies(state, events, from),
    ensures
        follows_bodies(
            walk_from(state, events, from, bytes).unwrap(),
            events,
            first_end(events, 0),
        ),
    decreases events.len() - from,
{
    if from < events.len() && !(events[from as int].event is EndWasm) {
        let event = events[from as int];
        let next = step(state, event.position, event.event, bytes).unwrap();
        assert forall|j: int| 0 <= j < from + 1 && (#[trigger] events[j]).event is Call implies {
            let call = next.calls[calls_before(events, j as nat) as int];
            &&& call.position == events[j].position
            &&& call.function_index == events[j].event->Call_0
            &&& call.function_body_position == body_start_before(events, j as nat)
            &&& call.function_body_index == bodies_before(events, j as nat)
        } by {
            if j < from {
                lemma_calls_before_grows(events, j as nat, from);
            }
        }
        lemma_walk_follows_bodies(next, events, from + 1, bytes);
    }
}

/// Between two events with no beginning and no end of a function body from
/// the first on, the body stays the same.
pub proof fn lemma_same_body(events: Seq<PositionedEventView>, first: nat, second: nat)
    requires
        first <= second <= events.len(),
        forall|m: int|
            first <= m < second ==> !((#[trigger] events[m]).event is BeginFunctionBody)
                && !(events[m].event is EndFunctionBody),
    ensures
        body_start_before(events, first) == body_start_before(events, second),
        bodies_before(events, first) == bodies_before(events, second),
    decreases second,
{
    if first < second {
        lemma_same_body(events, first, (second - 1) as nat);
    }
}

/// The function index space has no gaps and no repeats: whatever the
/// module, each function of its index carries its place in the list as its
/// index.
pub proof fn lemma_function_indices_are_contiguous(
    events: Seq<PositionedEventView>,
    bytes: Seq<u8>,
)
    requires
        index_module(events, bytes).is_some(),
        index_module(events, bytes).unwrap().functions.len() <= usize::MAX,
    ensures
        indexed_in_order(index_module(events, bytes).unwrap().functions),
{
    lemma_walk_indexes_functions(WalkState::empty(), events, 0, bytes);
}

/// Where the events report every import of a function before every
/// declaration of one, the imported functions have the indices below their
/// number, and the functions that the module defines have the indices from
/// there on.
pub proof fn lemma_imports_take_the_low_indices(
    events: Seq<PositionedEventView>,
    bytes: Seq<u8>,
)
    requires
        index_module(events, bytes).is_some(),
        index_module(events, bytes).unwrap().functions.len() <= usize::MAX,
        imports_precede_declarations(events),
    ensures
        ({
            let functions = index_module(events, bytes).unwrap().functions;
            &&& import_count(functions) <= functions.len()
            &&& forall|i: int|
                0 <= i < functions.len() ==> ((#[trigger] functions[i]).is_import
                    <==> functions[i].function_index < import_count(functions))
        }),
{
    let functions = index_module(events, bytes).unwrap().functions;
    lemma_walk_keeps_imports_first(WalkState::empty(), events, 0, bytes);
    lemma_function_indices_are_contiguous(events, bytes);
    assert(imports_lead(functions));
    lemma_import_count(functions);
}

/// Whether `call` names one of `functions` by its index.
pub open spec fn resolves(functions: Seq<WasmFunction>, call: WasmCall) -> bool {
    exists|f: int|
        0 <= f < functions.len() && (#[trigger] functions[f]).function_index == call.function_index
}

/// Whether each of `calls` names one of `functions` by its index.
pub open spec fn calls_resolve(functions: Seq<WasmFunction>, calls: Seq<WasmCall>) -> bool {
    forall|c: int| 0 <= c < calls.len() ==> resolves(functions, #[trigger] calls[c])
}

/// Every recorded call names a function of the index: its callee index is
/// below the number of functions, and it is the index of the function at
/// that place.
pub proof fn lemma_calls_resolve(events: Seq<PositionedEventView>, bytes: Seq<u8>)
    requires
        index_module(events, bytes).is_some(),
        index_module(events, bytes).unwrap().functions.len() <= usize::MAX,
    ensures
        ({
            let index = index_module(events, bytes).unwrap();
            &&& callees_exist(index.calls, index.functions.len())
            &&& calls_resolve(index.functions, index.calls)
        }),
{
    let index = index_module(events, bytes).unwrap();
    lemma_function_indices_are_contiguous(events, bytes);
    assert forall|c: int| 0 <= c < index.calls.len() implies resolves(
        index.functions,
        #[trigger] index.calls[c],
    ) by {
        let f = index.calls[c].function_index as int;
        assert(index.functions[f].function_index == f);
    }
}

/// The ordinals of the recorded calls do not decrease.
pub proof fn lemma_call_ordinals_do_not_decrease(
    events: Seq<PositionedEventView>,
    bytes: Seq<u8>,
)
    requires
        index_module(events, bytes).is_some(),
    ensures
        ordinals_do_not_decrease(index_module(events, bytes).unwrap().calls),
{
    lemma_walk_orders_calls(WalkState::empty(), events, 0, bytes);
}

/// The recorded calls are the direct calls that the events report up to the
/// end of the module, in their order. The ordinal of each is the number of
/// function bodies that ended before it, and its body position is that of
/// the function body that began last before it.
pub proof fn lemma_calls_follow_the_bodies(events: Seq<PositionedEventView>, bytes: Seq<u8>)
    requires
        index_module(events, bytes).is_some(),
    ensures
        ({
            let calls = index_module(events, bytes).unwrap().calls;
            &&& calls.len() == calls_before(events, first_end(events, 0))
            &&& forall|j: int|
                0 <= j < first_end(events, 0) && (#[trigger] events[j]).event is Call ==> {
                    let call = calls[calls_before(events, j as nat) as int];
                    &&& calls_before(events, j as nat) < calls.len()
                    &&& call.position == events[j].position
                    &&& call.function_index == events[j].event->Call_0
                    &&& call.function_body_position == body_start_before(events, j as nat)
                    &&& call.function_body_index == bodies_before(events, j as nat)
                }
        }),
{
    lemma_walk_follows_bodies(WalkState::empty(), events, 0, bytes);
    lemma_first_end(events, 0);
    let end = first_end(events, 0);
    assert forall|j: int|
        0 <= j < end && (#[trigger] events[j]).event is Call implies calls_before(events, j as nat)
        < calls_before(events, end) by {
        lemma_calls_before_grows(events, j as nat, end);
    }
}

/// Two direct calls in one function body, that is with no beginning and no
/// end of a body between them, are recorded with the same body position and
/// the same ordinal.
pub proof fn lemma_calls_in_one_body_agree(
    events: Seq<PositionedEventView>,
    bytes: Seq<u8>,
    first: nat,
    second: nat,
)
    requires
        index_module(events, bytes).is_some(),
        first <= second < first_end(events, 0),
        events[first as int].event is Call,
        events[second as int].event is Call,
        forall|m: int|
            first <= m < second ==> !((#[trigger] events[m]).event is BeginFunctionBody)
                && !(events[m].event is EndFunctionBody),
    ensures
        ({
            let calls = index_module(events, bytes).unwrap().calls;
            let one = calls[calls_before(events, first) as int];
            let other = calls[calls_before(events, second) as int];
            &&& one.function_body_position == other.function_body_position
            &&& one.function_body_index == other.function_body_index
        }),
{
    lemma_calls_follow_the_bodies(events, bytes);
    lemma_first_end(events, 0);
    lemma_same_body(events, first, second);
}

/// The number of entries of the type section among the first `k` events.
pub open spec fn entries_before(events: Seq<PositionedEventView>, k: nat) -> nat
    decreases k,
{
    if k == 0 {
        0
    } else if events[k - 1].event is TypeSectionEntry {
        entries_before(events, (k - 1) as nat) + 1
    } else {
        entries_before(events, (k - 1) as nat)
    }
}

/// Whether `signature` has the counts and the flags of an entry of the type
/// section with the given parameter and result types.
pub open spec fn has_shape_of(
    signature: WasmTypeSignature,
    params: Seq<WasmValueType>,
    results: Seq<WasmValueType>,
) -> bool {
    &&& signature.num_params == params.len() as usize
    &&& signature.num_returns == results.len() as usize
    &&& signature.has_i64_param == has_i64(params)
    &&& signature.has_i64_returns == has_i64(results)
}

/// Whether `signatures` holds one type signature for each entry of the type
/// section among the first `k` events, in their order and with their shapes.
pub open spec fn follows_entries(
    signatures: Seq<WasmTypeSignature>,
    events: Seq<PositionedEventView>,
    k: nat,
) -> bool {
    &&& signatures.len() == entries_before(events, k)
    &&& forall|j: int|
        0 <= j < k && (#[trigger] events[j]).event is TypeSectionEntry ==> has_shape_of(
            signatures[entries_before(events, j as nat) as int],
            events[j].event->params,
            events[j].event->results,
        )
}

/// Whether each function names one of `signatures` and has its counts and
/// flags.
pub open spec fn functions_match_signatures(
    functions: Seq<WasmFunction>,
    signatures: Seq<WasmTypeSignature>,
) -> bool {
    forall|f: int|
        0 <= f < functions.len() ==> {
            let function = #[trigger] functions[f];
            &&& function.signature_index < signatures.len()
            &&& function.num_params == signatures[function.signature_index as int].num_params
            &&& function.num_returns == signatures[function.signature_index as int].num_returns
            &&& function.has_i64_param == signatures[function.signature_index as int].has_i64_param
            &&& function.has_i64_returns
                == signatures[function.signature_index as int].has_i64_returns
        }
}

/// The entries of the type section among the first `j` events are at most
/// those among the first `k`, and fewer where the `j`-th event is such an
/// entry itself.
proof fn lemma_entries_before_grows(events: Seq<PositionedEventView>, j: nat, k: nat)
    requires
        j <= k,
    ensures
        entries_before(events, j) <= entries_before(events, k),
        j < k && events[j as int].event is TypeSectionEntry ==> entries_before(events, j)
            < entries_before(events, k),
    decreases k,
{
    if j < k {
        lemma_entries_before_grows(events, j, (k - 1) as nat);
    }
}

/// A walk records each entry of the type section with its shape.
proof fn lemma_walk_follows_entries(
    state: WalkState,
    events: Seq<PositionedEventView>,
    from: nat,
    bytes: Seq<u8>,
)
    requires
        walk_from(state, events, from, bytes).is_some(),
        first_end(events, from) == first_end(events, 0),
        follows_entries(state.type_signatures, events, from),
    ensures
        follows_entries(
            walk_from(state, events, from, bytes).unwrap().type_signatures,
            events,
            first_end(events, 0),
        ),
    decreases events.len() - from,
{
    if from < events.len() && !(events[from as int].event is EndWasm) {
        let event = events[from as int];
        let next = step(state, event.position, event.event, bytes).unwrap();
        assert forall|j: int|
            0 <= j < from + 1 && (#[trigger] events[j]).event is TypeSectionEntry implies {
            has_shape_of(
                next.type_signatures[entries_before(events, j as nat) as int],
                events[j].event->params,
                events[j].event->results,
            )
        } by {
            if j < from {
                lemma_entries_before_grows(events, j as nat, from);
            }
        }
        lemma_walk_follows_entries(next, events, from + 1, bytes);
    }
}

/// A walk gives each function the shape of the signature that it names.
proof fn lemma_walk_matches_signatures(
    state: WalkState,
    events: Seq<PositionedEventView>,
    from: nat,
    bytes: Seq<u8>,
)
    requires
        walk_from(state, events, from, bytes).is_some(),
        functions_match_signatures(state.functions, state.type_signatures),
    ensures
        functions_match_signatures(
            walk_from(state, events, from, bytes).unwrap().functions,
            walk_from(state, events, from, bytes).unwrap().type_signatures,
        ),
    decreases events.len() - from,
{
    if from < events.len() && !(events[from as int].event is EndWasm) {
        let event = events[from as int];
        let next = step(state, event.position, event.event, bytes).unwrap();
        assert(functions_match_signatures(next.functions, next.type_signatures));
        lemma_walk_matches_signatures(next, events, from + 1, bytes);
    }
}

/// The type signatures of an index are one for each entry of the type
/// section that the events report up to the end of the module, in their
/// order. Each has the counts of its entry, and its flag for parameters, or
/// for results, is set if and only if the 64-bit integer type is among the
/// parameter types, or among the result types, of the entry.
pub proof fn lemma_type_signatures_follow_the_entries(
    events: Seq<PositionedEventView>,
    bytes: Seq<u8>,
)
    requires
        index_module(events, bytes).is_some(),
    ensures
        follows_entries(
            index_module(events, bytes).unwrap().type_signatures,
            events,
            first_end(events, 0),
        ),
{
    let last = walk_from(WalkState::empty(), events, 0, bytes).unwrap();
    let signatures = index_module(events, bytes).unwrap().type_signatures;
    let type_section = first_section(last.sections, WasmSectionCode::Type).unwrap();
    lemma_walk_follows_entries(WalkState::empty(), events, 0, bytes);
    lemma_first_end(events, 0);
    lemma_type_signatures_contiguous(last.type_signatures, type_section, bytes);
    let end = first_end(events, 0);
    assert forall|j: int|
        0 <= j < end && (#[trigger] events[j]).event is TypeSectionEntry implies {
        has_shape_of(
            signatures[entries_before(events, j as nat) as int],
            events[j].event->params,
            events[j].event->results,
        )
    } by {
        lemma_entries_before_grows(events, j as nat, end);
    }
}

/// Each function of an index names a type signature of the index, and has
/// its counts and its flags.
pub proof fn lemma_functions_match_their_signatures(
    events: Seq<PositionedEventView>,
    bytes: Seq<u8>,
)
    requires
        index_module(events, bytes).is_some(),
    ensures
        functions_match_signatures(
            index_module(events, bytes).unwrap().functions,
            index_module(events, bytes).unwrap().type_signatures,
        ),
{
    let last = walk_from(WalkState::empty(), events, 0, bytes).unwrap();
    let type_section = first_section(last.sections, WasmSectionCode::Type).unwrap();
    lemma_walk_matches_signatures(WalkState::empty(), events, 0, bytes);
    lemma_type_signatures_contiguous(last.type_signatures, type_section, bytes);
}

/// The type signatures of an index lie one behind the other, from the first
/// entry of its type section on.
pub proof fn lemma_index_type_signatures_are_contiguous(
    events: Seq<PositionedEventView>,
    bytes: Seq<u8>,
)
    requires
        index_module(events, bytes).is_some(),
    ensures
        ({
            let index = index_module(events, bytes).unwrap();
            first_section(index.sections, WasmSectionCode::Type) matches Some(type_section)
                && lie_contiguous(index.type_signatures, entries_start(type_section))
        }),
{
    let last = walk_from(WalkState::empty(), events, 0, bytes).unwrap();
    let type_section = first_section(last.sections, WasmSectionCode::Type).unwrap();
    lemma_type_signatures_contiguous(last.type_signatures, type_section, bytes);
}

/// Where the declared size of the type section is that of its count and of
/// its entries as they are recorded, the last type signature of an index
/// ends at the declared end of the section: behind the code byte, the size
/// and as many bytes as the size says.
pub proof fn lemma_last_type_signature_ends_with_the_section(
    events: Seq<PositionedEventView>,
    bytes: Seq<u8>,
)
    requires
        index_module(events, bytes).is_some(),
        index_module(events, bytes).unwrap().type_signatures.len() > 0,
        ({
            let index = index_module(events, bytes).unwrap();
            let type_section = first_section(index.sections, WasmSectionCode::Type).unwrap();
            type_section.size == type_section.count_byte_length + entries_length(
                index.type_signatures,
            )
        }),
    ensures
        ({
            let index = index_module(events, bytes).unwrap();
            let type_section = first_section(index.sections, WasmSectionCode::Type).unwrap();
            index.type_signatures.last().end_position == type_section.start_position + 1
                + type_section.size_byte_length + type_section.size
        }),
{
    let index = index_module(events, bytes).unwrap();
    let type_section = first_section(index.sections, WasmSectionCode::Type).unwrap();
    lemma_index_type_signatures_are_contiguous(events, bytes);
    lemma_last_signature_end(index.type_signatures, entries_start(type_section));
}

/// What holds of every index: it has a type section and an import section,
/// its type signatures are contiguous, its functions are numbered without
/// gaps or repeats and shaped as their signatures, each of its calls names
/// one of its functions, and the ordinals of its calls do not decrease.
pub open spec fn well_formed(index: ModuleIndex) -> bool {
    &&& first_section(index.sections, WasmSectionCode::Import).is_some()
    &&& first_section(index.sections, WasmSectionCode::Type) matches Some(type_section)
        && lie_contiguous(index.type_signatures, entries_start(type_section))
    &&& indexed_in_order(index.functions)
    &&& functions_match_signatures(index.functions, index.type_signatures)
    &&& callees_exist(index.calls, index.functions.len())
    &&& calls_resolve(index.functions, index.calls)
    &&& ordinals_do_not_decrease(index.calls)
}

/// Every index is well formed.
pub proof fn lemma_index_is_well_formed(events: Seq<PositionedEventView>, bytes: Seq<u8>)
    requires
        index_module(events, bytes).is_some(),
        index_module(events, bytes).unwrap().functions.len() <= usize::MAX,
    ensures
        well_formed(index_module(events, bytes).unwrap()),
{
    lemma_index_type_signatures_are_contiguous(events, bytes);
    lemma_function_indices_are_contiguous(events, bytes);
    lemma_functions_match_their_signatures(events, bytes);
    lemma_calls_resolve(events, bytes);
    lemma_call_ordinals_do_not_decrease(events, bytes);
}

} // verus!
