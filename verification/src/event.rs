//! The events that a decoder of the binary format reports while it walks a
//! module.

use crate::model::WasmSectionCode;
use vstd::prelude::*;

verus! {

/// The type of a parameter or of a result.
#[derive(Debug, Copy, Clone, PartialEq, Eq, Structural)]
pub enum WasmValueType {
    /// 32-bit integer
    I32,
    /// 64-bit integer
    I64,
    /// 32-bit float
    F32,
    /// 64-bit float
    F64,
    /// 128-bit vector
    V128,
    /// Reference to a function
    AnyFunc,
    /// Reference to anything
    AnyRef,
    /// The form of a function type
    Func,
    /// The type of a block without a result
    EmptyBlockType,
}

/// One event of the walk.
#[derive(Debug, Clone)]
pub enum WasmEvent {
    /// A section of the given kind begins.
    BeginSection(WasmSectionCode),
    /// The section that was begun last ends.
    EndSection,
    /// An entry of the type section, with its parameter and result types.
    TypeSectionEntry { params: Vec<WasmValueType>, results: Vec<WasmValueType> },
    /// An import of a function with the given signature.
    FunctionImport(u32),
    /// A declaration of a function with the given signature.
    FunctionSectionEntry(u32),
    /// The body of a function begins.
    BeginFunctionBody,
    /// A direct call of the function with the given index.
    Call(u32),
    /// The body of a function ends.
    EndFunctionBody,
    /// The module ends.
    EndWasm,
    /// The decoder found the module malformed and stops.
    DecodeError,
    /// Anything else in the module.
    Other,
}

/// An event with its lists of types as sequences.
pub enum WasmEventView {
    BeginSection(WasmSectionCode),
    EndSection,
    TypeSectionEntry { params: Seq<WasmValueType>, results: Seq<WasmValueType> },
    FunctionImport(u32),
    FunctionSectionEntry(u32),
    BeginFunctionBody,
    Call(u32),
    EndFunctionBody,
    EndWasm,
    DecodeError,
    Other,
}

impl View for WasmEvent {
    type V = WasmEventView;

    open spec fn view(&self) -> WasmEventView {
        match *self {
            WasmEvent::BeginSection(code) => WasmEventView::BeginSection(code),
            WasmEvent::EndSection => WasmEventView::EndSection,
            WasmEvent::TypeSectionEntry { params, results } => WasmEventView::TypeSectionEntry {
                params: params@,
                results: results@,
            },
            WasmEvent::FunctionImport(index) => WasmEventView::FunctionImport(index),
            WasmEvent::FunctionSectionEntry(index) => WasmEventView::FunctionSectionEntry(index),
            WasmEvent::BeginFunctionBody => WasmEventView::BeginFunctionBody,
            WasmEvent::Call(index) => WasmEventView::Call(index),
            WasmEvent::EndFunctionBody => WasmEventView::EndFunctionBody,
            WasmEvent::EndWasm => WasmEventView::EndWasm,
            WasmEvent::DecodeError => WasmEventView::DecodeError,
            WasmEvent::Other => WasmEventView::Other,
        }
    }
}

impl WasmEventView {
    /// Whether the walk stops at this event.
    pub open spec fn is_last(self) -> bool {
        self is EndWasm || self is DecodeError
    }
}

/// An event together with the offset at which the decoder stood before it
/// reported the event.
#[derive(Debug, Clone)]
pub struct PositionedEvent {
    pub position: usize,
    pub event: WasmEvent,
}

/// A positioned event with its lists of types as sequences.
pub struct PositionedEventView {
    pub position: usize,
    pub event: WasmEventView,
}

impl View for PositionedEvent {
    type V = PositionedEventView;

    open spec fn view(&self) -> PositionedEventView {
        PositionedEventView { position: self.position, event: self.event@ }
    }
}

} // verus!
