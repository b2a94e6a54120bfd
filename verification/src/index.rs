//! The index of a module, from the events of its walk and its raw bytes.

use crate::event::{PositionedEvent, PositionedEventView, WasmEvent, WasmEventView};
use crate::fixup::{first_section, fix_import_positions, fix_type_signatures};
use crate::invariants::{lemma_index_is_well_formed, well_formed};
use crate::model::{ModuleIndex, ParsedWasmInfo, WasmCall, WasmSectionCode};
use crate::walk::{step, ModuleWalker, WalkState};
use vstd::prelude::*;

verus! {

/// The events of a list, each with its lists of types as sequences.
pub open spec fn events_view(events: Seq<PositionedEvent>) -> Seq<PositionedEventView> {
    events.map_values(|event: PositionedEvent| event@)
}

/// The state in which the walk stops, when it starts in `state` at the
/// `from`-th event. It stops at the first end of the module. It fails when
/// it fails at an event before that, or when the events run out.
pub open spec fn walk_from(
    state: WalkState,
    events: Seq<PositionedEventView>,
    from: nat,
    bytes: Seq<u8>,
) -> Option<WalkState>
    decreases events.len() - from,
{
    if from >= events.len() {
        None
    } else if events[from as int].event is EndWasm {
        Some(state)
    } else {
        match step(state, events[from as int].position, events[from as int].event, bytes) {
            Some(next) => walk_from(next, events, from + 1, bytes),
            None => None,
        }
    }
}

/// Whether each of `calls` names a function among the first `count`: its
/// callee index is below `count`.
pub open spec fn callees_exist(calls: Seq<WasmCall>, count: nat) -> bool {
    forall|c: int| 0 <= c < calls.len() ==> (#[trigger] calls[c]).function_index < count
}

/// The index that the two position fixes make of what the walk collected.
/// There is none when a section is still open, when a call names a function
/// that the module does not have, when the module has no import section or
/// no type section, or when one of the two fixes fails.
pub open spec fn finish(state: WalkState, bytes: Seq<u8>) -> Option<ModuleIndex> {
    match (
        state.open_section,
        first_section(state.sections, WasmSectionCode::Import),
        first_section(state.sections, WasmSectionCode::Type),
    ) {
        (None, Some(import_section), Some(type_section)) => match (
            callees_exist(state.calls, state.functions.len()),
            fix_import_positions(state.functions, import_section),
            fix_type_signatures(state.type_signatures, type_section, bytes),
        ) {
            (true, Some(functions), Some(type_signatures)) => Some(
                ModuleIndex {
                    type_signatures,
                    sections: state.sections,
                    functions,
                    calls: state.calls,
                },
            ),
            _ => None,
        },
        _ => None,
    }
}

/// The index of the module `bytes` whose walk reports `events`.
pub open spec fn index_module(events: Seq<PositionedEventView>, bytes: Seq<u8>) -> Option<
    ModuleIndex,
> {
    match walk_from(WalkState::empty(), events, 0, bytes) {
        Some(state) => finish(state, bytes),
        None => None,
    }
}

/// Tells whether each of `calls` names a function among the first `count`.
pub fn check_callees(calls: &Vec<WasmCall>, count: usize) -> (ok: bool)
    ensures
        ok == callees_exist(calls@, count as nat),
{
    let mut i: usize = 0;
    while i < calls.len()
        invariant
            i <= calls.len(),
            forall|c: int| 0 <= c < i ==> (#[trigger] calls@[c]).function_index < count,
        decreases calls.len() - i,
    {
        if calls[i].function_index >= count {
            return false;
        }
        i = i + 1;
    }
    true
}

/// Builds the index of the module `bytes` from the events of its walk. There
/// is none where the walk fails at an event or finds no end of the module,
/// and where `finish` has none for what the walk collected.
pub fn index_events(events: &Vec<PositionedEvent>, bytes: &[u8]) -> (info: Option<ParsedWasmInfo>)
    ensures
        match info {
            Some(info) => Some(info@) == index_module(events_view(events@), bytes@),
            None => index_module(events_view(events@), bytes@).is_none(),
        },
        info matches Some(info) ==> well_formed(info@),
{
    let ghost all = events_view(events@);
    let mut walker = ModuleWalker::new();
    let mut i: usize = 0;
    while i < events.len()
        invariant
            i <= events.len(),
            all == events_view(events@),
            walk_from(WalkState::empty(), all, 0, bytes@) == walk_from(
                walker@,
                all,
                i as nat,
                bytes@,
            ),
        decreases events.len() - i,
    {
        let entry = &events[i];
        if let WasmEvent::EndWasm = entry.event {
            let info = walker.finish(bytes);
            proof {
                if info.is_some() {
                    let functions = info.unwrap().wasm_functions;
                    assert(functions@.len() == functions.len());
                    lemma_index_is_well_formed(all, bytes@);
                }
            }
            return info;
        }
        if !walker.apply(entry.position, &entry.event, bytes) {
            return None;
        }
        i = i + 1;
    }
    None
}

} // verus!
