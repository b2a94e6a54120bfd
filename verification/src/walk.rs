//! The forward walk over the events of a module: it collects the draft
//! records of sections, type signatures, functions and calls.

use crate::event::{WasmEvent, WasmEventView, WasmValueType};
use crate::fixup::{find_section, fix_import_function_position, fix_type_signature_offsets};
use crate::index::{check_callees, finish};
use crate::model::{
    ParsedWasmInfo, WasmCall, WasmFunction, WasmSection, WasmSectionCode, WasmTypeSignature,
};
use crate::varint::{decode_varuint, lemma_decode_varuint_bounds, read_varuint};
use vstd::prelude::*;

verus! {

/// What the walk has collected so far.
pub struct WalkState {
    /// The type signatures, in the order of their declaration.
    pub type_signatures: Seq<WasmTypeSignature>,
    /// The sections that have ended, in file order.
    pub sections: Seq<WasmSection>,
    /// The section that has begun and not yet ended.
    pub open_section: Option<WasmSection>,
    /// The functions, imported or declared, in the order of their indices.
    pub functions: Seq<WasmFunction>,
    /// The direct calls, in the order in which they were met.
    pub calls: Seq<WasmCall>,
    /// Where the function body that began last starts.
    pub body_position: usize,
    /// How many function bodies have ended.
    pub body_index: usize,
}

impl WalkState {
    /// The state before the first event.
    pub open spec fn empty() -> WalkState {
        WalkState {
            type_signatures: Seq::empty(),
            sections: Seq::empty(),
            open_section: None,
            functions: Seq::empty(),
            calls: Seq::empty(),
            body_position: 0,
            body_index: 0,
        }
    }
}

/// The record of a section of kind `code` that begins at `position`: its
/// declared size is read right after the code byte, and its declared number
/// of entries right after the size. The start section has no such number.
/// There is no record when one of the two cannot be read.
pub open spec fn section_header(
    position: usize,
    code: WasmSectionCode,
    bytes: Seq<u8>,
) -> Option<WasmSection> {
    match decode_varuint(bytes, position + 1) {
        None => None,
        Some((size, size_byte_length)) => if code == WasmSectionCode::Start {
            Some(
                WasmSection {
                    start_position: position,
                    end_position: 0,
                    code,
                    size,
                    size_byte_length,
                    count: 0,
                    count_byte_length: 0,
                },
            )
        } else {
            match decode_varuint(bytes, position + 1 + size_byte_length) {
                None => None,
                Some((count, count_byte_length)) => Some(
                    WasmSection {
                        start_position: position,
                        end_position: 0,
                        code,
                        size,
                        size_byte_length,
                        count,
                        count_byte_length,
                    },
                ),
            }
        },
    }
}

/// Whether the 64-bit integer type is among `types`.
pub open spec fn has_i64(types: Seq<WasmValueType>) -> bool {
    types.contains(WasmValueType::I64)
}

/// The record of a type signature as the walk leaves it: with the position
/// that the decoder reported, and with the end offset and the two encoded
/// lengths still to be corrected.
pub open spec fn draft_signature(
    position: usize,
    params: Seq<WasmValueType>,
    results: Seq<WasmValueType>,
) -> WasmTypeSignature {
    WasmTypeSignature {
        start_position: position,
        end_position: 0,
        num_params: params.len() as usize,
        num_params_byte_length: 0,
        num_returns: results.len() as usize,
        num_returns_byte_length: 1,
        has_i64_param: has_i64(params),
        has_i64_returns: has_i64(results),
    }
}

/// The record of the next function, which takes the next unused index and
/// the shape of the signature that it names. There is none when no such
/// signature has been declared.
pub open spec fn next_function(
    state: WalkState,
    position: usize,
    signature_index: u32,
    is_import: bool,
) -> Option<WasmFunction> {
    if signature_index < state.type_signatures.len() {
        let signature = state.type_signatures[signature_index as int];
        Some(
            WasmFunction {
                is_import,
                position,
                function_index: state.functions.len() as usize,
                signature_index: signature_index as usize,
                num_params: signature.num_params,
                num_returns: signature.num_returns,
                has_i64_param: signature.has_i64_param,
                has_i64_returns: signature.has_i64_returns,
            },
        )
    } else {
        None
    }
}

/// The record of a direct call of `function_index` met at `position`.
pub open spec fn call_record(state: WalkState, position: usize, function_index: u32) -> WasmCall {
    WasmCall {
        position,
        function_index: function_index as usize,
        function_body_position: state.body_position,
        function_body_index: state.body_index,
    }
}

/// The state after a section of kind `code` has begun at `position`. The
/// walk fails when another section is still open, or when the header of the
/// section cannot be read.
pub open spec fn begin_section(
    state: WalkState,
    position: usize,
    code: WasmSectionCode,
    bytes: Seq<u8>,
) -> Option<WalkState> {
    match (state.open_section, section_header(position, code, bytes)) {
        (None, Some(section)) => Some(WalkState { open_section: Some(section), ..state }),
        _ => None,
    }
}

/// The state after the open section has ended at `position`. The walk fails
/// when no section is open.
pub open spec fn end_section(state: WalkState, position: usize) -> Option<WalkState> {
    match state.open_section {
        Some(section) => Some(
            WalkState {
                sections: state.sections.push(WasmSection { end_position: position, ..section }),
                open_section: None,
                ..state
            },
        ),
        None => None,
    }
}

/// The state after a function with the given signature has been met.
pub open spec fn add_function(
    state: WalkState,
    position: usize,
    signature_index: u32,
    is_import: bool,
) -> Option<WalkState> {
    match next_function(state, position, signature_index, is_import) {
        Some(function) => Some(WalkState { functions: state.functions.push(function), ..state }),
        None => None,
    }
}

/// The state after the body of a function has ended. The walk fails when the
/// number of bodies no longer fits the machine's word.
pub open spec fn end_function_body(state: WalkState) -> Option<WalkState> {
    if state.body_index < usize::MAX {
        Some(WalkState { body_index: (state.body_index + 1) as usize, ..state })
    } else {
        None
    }
}

/// The state after `event`, which the decoder reported when it had stood at
/// `position`; `None` when the walk fails at the event.
pub open spec fn step(
    state: WalkState,
    position: usize,
    event: WasmEventView,
    bytes: Seq<u8>,
) -> Option<WalkState> {
    match event {
        WasmEventView::BeginSection(code) => begin_section(state, position, code, bytes),
        WasmEventView::EndSection => end_section(state, position),
        WasmEventView::TypeSectionEntry { params, results } => Some(
            WalkState {
                type_signatures: state.type_signatures.push(
                    draft_signature(position, params, results),
                ),
                ..state
            },
        ),
        WasmEventView::FunctionImport(signature_index) => add_function(
            state,
            position,
            signature_index,
            true,
        ),
        WasmEventView::FunctionSectionEntry(signature_index) => add_function(
            state,
            position,
            signature_index,
            false,
        ),
        WasmEventView::BeginFunctionBody => Some(WalkState { body_position: position, ..state }),
        WasmEventView::Call(function_index) => Some(
            WalkState {
                calls: state.calls.push(call_record(state, position, function_index)),
                ..state
            },
        ),
        WasmEventView::EndFunctionBody => end_function_body(state),
        WasmEventView::EndWasm => Some(state),
        WasmEventView::DecodeError => None,
        WasmEventView::Other => Some(state),
    }
}

/// Reads the header of a section of kind `code` that begins at `position`.
pub fn read_section_header(position: usize, code: WasmSectionCode, bytes: &[u8]) -> (section:
    Option<WasmSection>)
    ensures
        section == section_header(position, code, bytes@),
{
    if position >= bytes.len() {
        return None;
    }
    let (size, size_byte_length) = match read_varuint(bytes, position + 1) {
        Some(field) => field,
        None => { return None; },
    };
    let mut count: u32 = 0;
    let mut count_byte_length: usize = 0;
    if code != WasmSectionCode::Start {
        proof {
            lemma_decode_varuint_bounds(bytes@, position + 1);
        }
        match read_varuint(bytes, position + 1 + size_byte_length) {
            Some((value, byte_length)) => {
                count = value;
                count_byte_length = byte_length;
            },
            None => { return None; },
        }
    }
    Some(
        WasmSection {
            start_position: position,
            end_position: 0,
            code,
            size,
            size_byte_length,
            count,
            count_byte_length,
        },
    )
}

/// Tells whether the 64-bit integer type is among `types`.
pub fn contains_i64(types: &Vec<WasmValueType>) -> (found: bool)
    ensures
        found == has_i64(types@),
{
    let mut i: usize = 0;
    while i < types.len()
        invariant
            i <= types.len(),
            forall|k: int| 0 <= k < i ==> types@[k] != WasmValueType::I64,
        decreases types.len() - i,
    {
        if types[i] == WasmValueType::I64 {
            return true;
        }
        i = i + 1;
    }
    false
}

/// The collector of the walk.
pub struct ModuleWalker {
    type_signatures: Vec<WasmTypeSignature>,
    sections: Vec<WasmSection>,
    open_section: Option<WasmSection>,
    functions: Vec<WasmFunction>,
    calls: Vec<WasmCall>,
    body_position: usize,
    body_index: usize,
}

impl View for ModuleWalker {
    type V = WalkState;

    closed spec fn view(&self) -> WalkState {
        WalkState {
            type_signatures: self.type_signatures@,
            sections: self.sections@,
            open_section: self.open_section,
            functions: self.functions@,
            calls: self.calls@,
            body_position: self.body_position,
            body_index: self.body_index,
        }
    }
}

impl ModuleWalker {
    /// A walker that has seen no event.
    pub fn new() -> (walker: ModuleWalker)
        ensures
            walker@ == WalkState::empty(),
    {
        ModuleWalker {
            type_signatures: Vec::new(),
            sections: Vec::new(),
            open_section: None,
            functions: Vec::new(),
            calls: Vec::new(),
            body_position: 0,
            body_index: 0,
        }
    }

    /// Section walker: a section of kind `code` begins at `position`.
    /// Returns whether the walk goes on; when it does not, nothing changes.
    pub fn begin_section(&mut self, position: usize, code: WasmSectionCode, bytes: &[u8]) -> (ok:
        bool)
        ensures
            ok == begin_section(old(self)@, position, code, bytes@).is_some(),
            ok ==> Some(final(self)@) == begin_section(old(self)@, position, code, bytes@),
            !ok ==> final(self)@ == old(self)@,
    {
        if self.open_section.is_some() {
            return false;
        }
        match read_section_header(position, code, bytes) {
            Some(section) => {
                self.open_section = Some(section);
                true
            },
            None => false,
        }
    }

    /// Section walker: the open section ends at `position`.
    /// Returns whether the walk goes on; when it does not, nothing changes.
    pub fn end_section(&mut self, position: usize) -> (ok: bool)
        ensures
            ok == end_section(old(self)@, position).is_some(),
            ok ==> Some(final(self)@) == end_section(old(self)@, position),
            !ok ==> final(self)@ == old(self)@,
    {
        match self.open_section {
            Some(section) => {
                self.sections.push(WasmSection { end_position: position, ..section });
                self.open_section = None;
                true
            },
            None => false,
        }
    }

    /// Type signature collector: an entry of the type section with the given
    /// parameter and result types was reported at `position`.
    pub fn add_type_signature(
        &mut self,
        position: usize,
        params: &Vec<WasmValueType>,
        results: &Vec<WasmValueType>,
    )
        ensures
            final(self)@ == (WalkState {
                type_signatures: old(self)@.type_signatures.push(
                    draft_signature(position, params@, results@),
                ),
                ..old(self)@
            }),
    {
        let signature = WasmTypeSignature {
            start_position: position,
            end_position: 0,
            num_params: params.len(),
            num_params_byte_length: 0,
            num_returns: results.len(),
            num_returns_byte_length: 1,
            has_i64_param: contains_i64(params),
            has_i64_returns: contains_i64(results),
        };
        self.type_signatures.push(signature);
    }

    /// Function collector: a function with the given signature, imported or
    /// declared, was reported at `position`.
    /// Returns whether the walk goes on; when it does not, nothing changes.
    pub fn add_function(&mut self, position: usize, signature_index: u32, is_import: bool) -> (ok:
        bool)
        ensures
            ok == add_function(old(self)@, position, signature_index, is_import).is_some(),
            ok ==> Some(final(self)@) == add_function(
                old(self)@,
                position,
                signature_index,
                is_import,
            ),
            !ok ==> final(self)@ == old(self)@,
    {
        let index = signature_index as usize;
        if index >= self.type_signatures.len() {
            return false;
        }
        let signature = self.type_signatures[index];
        let function = WasmFunction {
            is_import,
            position,
            function_index: self.functions.len(),
            signature_index: index,
            num_params: signature.num_params,
            num_returns: signature.num_returns,
            has_i64_param: signature.has_i64_param,
            has_i64_returns: signature.has_i64_returns,
        };
        self.functions.push(function);
        true
    }

    /// Call site collector: the body of a function begins at `position`.
    pub fn begin_function_body(&mut self, position: usize)
        ensures
            final(self)@ == (WalkState { body_position: position, ..old(self)@ }),
    {
        self.body_position = position;
    }

    /// Call site collector: a direct call of `function_index` was reported at
    /// `position`.
    pub fn add_call(&mut self, position: usize, function_index: u32)
        ensures
            final(self)@ == (WalkState {
                calls: old(self)@.calls.push(call_record(old(self)@, position, function_index)),
                ..old(self)@
            }),
    {
        let call = WasmCall {
            position,
            function_index: function_index as usize,
            function_body_position: self.body_position,
            function_body_index: self.body_index,
        };
        self.calls.push(call);
    }

    /// Call site collector: the body of a function ends.
    /// Returns whether the walk goes on; when it does not, nothing changes.
    pub fn end_function_body(&mut self) -> (ok: bool)
        ensures
            ok == end_function_body(old(self)@).is_some(),
            ok ==> Some(final(self)@) == end_function_body(old(self)@),
            !ok ==> final(self)@ == old(self)@,
    {
        if self.body_index < usize::MAX {
            self.body_index = self.body_index + 1;
            true
        } else {
            false
        }
    }

    /// Takes in `event`, which the decoder reported when it had stood at
    /// `position`. Returns whether the walk goes on; when it does not, nothing
    /// changes.
    pub fn apply(&mut self, position: usize, event: &WasmEvent, bytes: &[u8]) -> (ok: bool)
        ensures
            ok == step(old(self)@, position, event@, bytes@).is_some(),
            ok ==> Some(final(self)@) == step(old(self)@, position, event@, bytes@),
            !ok ==> final(self)@ == old(self)@,
    {
        match event {
            WasmEvent::BeginSection(code) => self.begin_section(position, *code, bytes),
            WasmEvent::EndSection => self.end_section(position),
            WasmEvent::TypeSectionEntry { params, results } => {
                self.add_type_signature(position, params, results);
                true
            },
            WasmEvent::FunctionImport(signature_index) => self.add_function(
                position,
                *signature_index,
                true,
            ),
            WasmEvent::FunctionSectionEntry(signature_index) => self.add_function(
                position,
                *signature_index,
                false,
            ),
            WasmEvent::BeginFunctionBody => {
                self.begin_function_body(position);
                true
            },
            WasmEvent::Call(function_index) => {
                self.add_call(position, *function_index);
                true
            },
            WasmEvent::EndFunctionBody => self.end_function_body(),
            WasmEvent::EndWasm => true,
            WasmEvent::DecodeError => false,
            WasmEvent::Other => true,
        }
    }

    /// Ends the walk: makes sure that every call names a function that was
    /// collected, runs the import position fix and the type signature offset
    /// fix over what was collected, and hands out the index.
    pub fn finish(self, bytes: &[u8]) -> (info: Option<ParsedWasmInfo>)
        ensures
            match info {
                Some(info) => Some(info@) == finish(self@, bytes@),
                None => finish(self@, bytes@).is_none(),
            },
    {
        if self.open_section.is_some() || !check_callees(&self.calls, self.functions.len()) {
            return None;
        }
        let import_section = match find_section(&self.sections, WasmSectionCode::Import) {
            Some(section) => section,
            None => { return None; },
        };
        let type_section = match find_section(&self.sections, WasmSectionCode::Type) {
            Some(section) => section,
            None => { return None; },
        };
        let wasm_functions = match fix_import_function_position(self.functions, &import_section) {
            Some(functions) => functions,
            None => { return None; },
        };
        let wasm_type_signatures = match fix_type_signature_offsets(
            self.type_signatures,
            &type_section,
            bytes,
        ) {
            Some(signatures) => signatures,
            None => { return None; },
        };
        Some(
            ParsedWasmInfo {
                wasm_type_signatures,
                wasm_sections: self.sections,
                wasm_functions,
                wasm_calls: self.calls,
            },
        )
    }
}

} // verus!
