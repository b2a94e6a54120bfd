//! A structural index of a WebAssembly binary module: byte-exact positions of
//! its sections, function type signatures, functions and direct call sites.
//!
//! One forward walk over the events of a decoder collects draft records
//! ([`walk`]); two passes then correct the positions that the decoder
//! reports wrongly ([`fixup`]). [`parser::parse_wasm_vec`] does both for a
//! module in its binary form, [`index::index_events`] for a list of events.
//! [`invariants`] states what holds of every index, and [`bodies`] what
//! holds where the function bodies of the module begin and end in turn.

pub mod bodies;
pub mod event;
pub mod fixup;
pub mod index;
pub mod invariants;
pub mod model;
pub mod parser;
pub mod varint;
pub mod walk;

pub use crate::event::{PositionedEvent, WasmEvent, WasmValueType};
pub use crate::index::index_events;
pub use crate::model::{
    ParsedWasmInfo, WasmCall, WasmFunction, WasmSection, WasmSectionCode, WasmTypeSignature,
};
pub use crate::parser::parse_wasm_vec;
