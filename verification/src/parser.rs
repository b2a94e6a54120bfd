//! The walk over a module in its binary form. The module is decoded by
//! `wasmparser`'s event-driven `Parser`; what that decoder reports is taken
//! on trust, and everything that is made of its reports is verified.

use crate::event::{PositionedEventView, WasmEvent, WasmEventView, WasmValueType};
use crate::index::{index_module, walk_from};
use crate::invariants::{lemma_index_is_well_formed, well_formed};
use crate::model::{ParsedWasmInfo, WasmSectionCode};
use crate::walk::{ModuleWalker, WalkState};
use vstd::prelude::*;
use wasmparser::ParserState::BeginSection;
use wasmparser::{
    ImportSectionEntryType, Operator, Parser, ParserState, SectionCode, Type, WasmDecoder,
};

verus! {

/// `wasmparser::Parser`, the decoder. Nothing of what it holds is known
/// here: all that is said of a decoder is said of `parser_steps`.
#[verifier::external_type_specification]
#[verifier::external_body]
pub struct ExParser<'a>(wasmparser::Parser<'a>);

/// A state of the decoder.
pub struct DecoderStep {
    /// What the read that brought the decoder into the state reported.
    pub event: WasmEventView,
    /// The offset that the decoder gives as its position while it is in the
    /// state.
    pub position: usize,
}

/// The run of a new `wasmparser::Parser` over `bytes`: the states that it
/// passes through when it is read until it stops, from its initial state on.
/// The last state, and no state before it, is the end of the module or a
/// decode error.
pub uninterp spec fn module_steps(bytes: Seq<u8>) -> Seq<DecoderStep>;

/// The rest of the run of `parser`: the state that it is in, followed by the
/// states that further reads bring it to.
pub uninterp spec fn parser_steps(parser: Parser<'_>) -> Seq<DecoderStep>;

/// What a read reports, without the kind of a section and without the types
/// of an entry of the type section.
enum DecoderRecord {
    BeginSection,
    EndSection,
    TypeSectionEntry,
    FunctionImport(u32),
    FunctionSectionEntry(u32),
    BeginFunctionBody,
    Call(u32),
    EndFunctionBody,
    EndWasm,
    DecodeError,
    Other,
}

impl DecoderRecord {
    /// Whether the record is `event` without its kind of section or its
    /// types.
    spec fn describes(self, event: WasmEventView) -> bool {
        match self {
            DecoderRecord::BeginSection => event is BeginSection,
            DecoderRecord::EndSection => event is EndSection,
            DecoderRecord::TypeSectionEntry => event is TypeSectionEntry,
            DecoderRecord::FunctionImport(index) => event == WasmEventView::FunctionImport(index),
            DecoderRecord::FunctionSectionEntry(index) => event
                == WasmEventView::FunctionSectionEntry(index),
            DecoderRecord::BeginFunctionBody => event is BeginFunctionBody,
            DecoderRecord::Call(index) => event == WasmEventView::Call(index),
            DecoderRecord::EndFunctionBody => event is EndFunctionBody,
            DecoderRecord::EndWasm => event is EndWasm,
            DecoderRecord::DecodeError => event is DecodeError,
            DecoderRecord::Other => event is Other,
        }
    }
}

/// Calls `wasmparser::Parser::new`. Taken on trust: the run of the new
/// decoder is the run over `bytes`, and it has a state after the initial
/// one, so that the decoder can be read.
#[verifier::external_body]
fn new_parser<'a>(bytes: &'a [u8]) -> (parser: Parser<'a>)
    ensures
        parser_steps(parser) == module_steps(bytes@),
        parser_steps(parser).len() > 1,
{
    Parser::new(bytes)
}

/// Calls `wasmparser::Parser::current_position`. Taken on trust: the offset
/// that comes back is the position of the state that the decoder is in. The
/// call is made only while the decoder can be read: after a decode error it
/// may panic.
#[verifier::external_body]
fn current_position(parser: &Parser<'_>) -> (position: usize)
    requires
        parser_steps(*parser).len() > 1,
    ensures
        position == parser_steps(*parser)[0].position,
{
    parser.current_position()
}

/// Calls `wasmparser::WasmDecoder::read` on a `Parser`, and tells the
/// variants of the `ParserState` that comes back apart. Taken on trust: the
/// read moves the decoder to the next state of its run, the record describes
/// that state, and the decoder can be read again unless the state is the end
/// of the module or a decode error. The call is made only while the decoder
/// can be read: after either of these two it panics.
#[verifier::external_body]
fn read_record(parser: &mut Parser<'_>) -> (record: DecoderRecord)
    requires
        parser_steps(*old(parser)).len() > 1,
    ensures
        parser_steps(*final(parser)) == parser_steps(*old(parser)).skip(1),
        record.describes(parser_steps(*final(parser))[0].event),
        parser_steps(*final(parser)).len() > 1
            <==> !parser_steps(*final(parser))[0].event.is_last(),
{
    match parser.read() {
        ParserState::BeginSection { .. } => DecoderRecord::BeginSection,
        ParserState::EndSection => DecoderRecord::EndSection,
        ParserState::TypeSectionEntry(_) => DecoderRecord::TypeSectionEntry,
        ParserState::ImportSectionEntry { ty: ImportSectionEntryType::Function(index), .. } =>
            DecoderRecord::FunctionImport(*index),
        ParserState::FunctionSectionEntry(index) => DecoderRecord::FunctionSectionEntry(*index),
        ParserState::BeginFunctionBody { .. } => DecoderRecord::BeginFunctionBody,
        ParserState::CodeOperator(Operator::Call { function_index }) =>
            DecoderRecord::Call(*function_index),
        ParserState::EndFunctionBody => DecoderRecord::EndFunctionBody,
        ParserState::EndWasm => DecoderRecord::EndWasm,
        ParserState::Error(_) => DecoderRecord::DecodeError,
        _ => DecoderRecord::Other,
    }
}

/// Calls `wasmparser::WasmDecoder::last_state` on a `Parser` whose last read
/// reported the beginning of a section, and converts the `SectionCode` of
/// that state, variant by variant; a custom section of any name is `Custom`.
/// Taken on trust: the state that the decoder is in is the beginning of a
/// section of the kind that comes back.
#[verifier::external_body]
fn begun_section(parser: &Parser<'_>) -> (code: WasmSectionCode)
    requires
        parser_steps(*parser).len() > 0,
        parser_steps(*parser)[0].event is BeginSection,
    ensures
        parser_steps(*parser)[0].event == WasmEventView::BeginSection(code),
{
    match parser.last_state() {
        BeginSection { code: SectionCode::Type, .. } => WasmSectionCode::Type,
        BeginSection { code: SectionCode::Import, .. } => WasmSectionCode::Import,
        BeginSection { code: SectionCode::Function, .. } => WasmSectionCode::Function,
        BeginSection { code: SectionCode::Table, .. } => WasmSectionCode::Table,
        BeginSection { code: SectionCode::Memory, .. } => WasmSectionCode::Memory,
        BeginSection { code: SectionCode::Global, .. } => WasmSectionCode::Global,
        BeginSection { code: SectionCode::Export, .. } => WasmSectionCode::Export,
        BeginSection { code: SectionCode::Start, .. } => WasmSectionCode::Start,
        BeginSection { code: SectionCode::Element, .. } => WasmSectionCode::Element,
        BeginSection { code: SectionCode::Code, .. } => WasmSectionCode::Code,
        BeginSection { code: SectionCode::Data, .. } => WasmSectionCode::Data,
        BeginSection { code: SectionCode::DataCount, .. } => WasmSectionCode::DataCount,
        _ => WasmSectionCode::Custom,
    }
}

/// Calls `wasmparser::WasmDecoder::last_state` on a `Parser` whose last read
/// reported an entry of the type section, and converts the `params` and the
/// `returns` of its `FuncType`, type by type and variant by variant. Taken
/// on trust: these are the parameter types and the result types of the entry
/// that the decoder is in.
#[verifier::external_body]
fn entry_types(parser: &Parser<'_>) -> (types: (Vec<WasmValueType>, Vec<WasmValueType>))
    requires
        parser_steps(*parser).len() > 0,
        parser_steps(*parser)[0].event is TypeSectionEntry,
    ensures
        types.0@ == parser_steps(*parser)[0].event->params,
        types.1@ == parser_steps(*parser)[0].event->results,
{
    let ParserState::TypeSectionEntry(entry) = parser.last_state() else {
        return (vec![], vec![]);
    };
    let convert = |ty: &Type| match ty {
        Type::I32 => WasmValueType::I32,
        Type::I64 => WasmValueType::I64,
        Type::F32 => WasmValueType::F32,
        Type::F64 => WasmValueType::F64,
        Type::V128 => WasmValueType::V128,
        Type::AnyFunc => WasmValueType::AnyFunc,
        Type::AnyRef => WasmValueType::AnyRef,
        Type::Func => WasmValueType::Func,
        Type::EmptyBlockType => WasmValueType::EmptyBlockType,
    };
    (entry.params.iter().map(convert).collect(), entry.returns.iter().map(convert).collect())
}

/// The events of a run of the decoder: each state but the first, with the
/// position of the state before it, which is where the decoder stood when
/// it was read.
pub open spec fn positioned_events(steps: Seq<DecoderStep>) -> Seq<PositionedEventView> {
    Seq::new(
        (steps.len() - 1) as nat,
        |k: int| PositionedEventView { position: steps[k].position, event: steps[k + 1].event },
    )
}

/// The events that the decoder reports of the module `bytes`.
pub open spec fn decoded_events(bytes: Seq<u8>) -> Seq<PositionedEventView> {
    positioned_events(module_steps(bytes))
}

/// Reads the decoder once and puts together the event that it reports.
fn next_event(parser: &mut Parser<'_>) -> (event: WasmEvent)
    requires
        parser_steps(*old(parser)).len() > 1,
    ensures
        parser_steps(*final(parser)) == parser_steps(*old(parser)).skip(1),
        event@ == parser_steps(*final(parser))[0].event,
        parser_steps(*final(parser)).len() > 1 <==> !event@.is_last(),
{
    match read_record(parser) {
        DecoderRecord::BeginSection => WasmEvent::BeginSection(begun_section(parser)),
        DecoderRecord::EndSection => WasmEvent::EndSection,
        DecoderRecord::TypeSectionEntry => {
            let (params, results) = entry_types(parser);
            WasmEvent::TypeSectionEntry { params, results }
        },
        DecoderRecord::FunctionImport(index) => WasmEvent::FunctionImport(index),
        DecoderRecord::FunctionSectionEntry(index) => WasmEvent::FunctionSectionEntry(index),
        DecoderRecord::BeginFunctionBody => WasmEvent::BeginFunctionBody,
        DecoderRecord::Call(index) => WasmEvent::Call(index),
        DecoderRecord::EndFunctionBody => WasmEvent::EndFunctionBody,
        DecoderRecord::EndWasm => WasmEvent::EndWasm,
        DecoderRecord::DecodeError => WasmEvent::DecodeError,
        DecoderRecord::Other => WasmEvent::Other,
    }
}

/// Walks the module in `wasm_binary_vec` and builds its index: the sections,
/// type signatures, functions and direct calls, with their byte offsets.
/// The bytes are only read.
///
/// The index is `index_module` of the events which the decoder reports of
/// the bytes, and there is none exactly where that has none:
/// - the decoder finds the module malformed;
/// - a section begins while another is open, ends while none is open, or is
///   still open at the end of the module;
/// - the size or the count in the header of a section cannot be read in the
///   bytes: they end inside it, it takes more than five bytes, or its value
///   does not fit 32 bits;
/// - an import or a declaration of a function names a type signature that
///   has not been declared before it;
/// - more function bodies end than the machine's word can count;
/// - a call names a function that the module does not have;
/// - the module has no type section or no import section;
/// - the position of the first imported function, or an offset of a type
///   signature, does not fit the machine's word once it is corrected;
/// - the parameter count of a type signature cannot be read in the bytes.
pub fn parse_wasm_vec(wasm_binary_vec: &mut Vec<u8>) -> (info: Option<ParsedWasmInfo>)
    ensures
        *final(wasm_binary_vec) == *old(wasm_binary_vec),
        match info {
            Some(info) => Some(info@) == index_module(
                decoded_events(old(wasm_binary_vec)@),
                old(wasm_binary_vec)@,
            ),
            None => index_module(
                decoded_events(old(wasm_binary_vec)@),
                old(wasm_binary_vec)@,
            ).is_none(),
        },
        info matches Some(info) ==> well_formed(info@),
{
    let bytes: &[u8] = wasm_binary_vec.as_slice();
    let ghost steps = module_steps(bytes@);
    let ghost events = decoded_events(bytes@);
    let mut walker = ModuleWalker::new();
    let mut parser = new_parser(bytes);
    let ghost mut read: nat = 0;
    loop
        invariant
            bytes@ == old(wasm_binary_vec)@,
            steps == module_steps(bytes@),
            events == decoded_events(bytes@),
            read + 1 < steps.len(),
            parser_steps(parser) == steps.skip(read as int),
            walk_from(WalkState::empty(), events, 0, bytes@) == walk_from(
                walker@,
                events,
                read,
                bytes@,
            ),
        decreases steps.len() - read,
    {
        let position = current_position(&parser);
        let event = next_event(&mut parser);
        if let WasmEvent::EndWasm = event {
            let info = walker.finish(bytes);
            proof {
                if info.is_some() {
                    let functions = info.unwrap().wasm_functions;
                    assert(functions@.len() == functions.len());
                    lemma_index_is_well_formed(events, bytes@);
                }
            }
            return info;
        }
        if !walker.apply(position, &event, bytes) {
            return None;
        }
        proof {
            read = read + 1;
        }
    }
}

} // verus!
