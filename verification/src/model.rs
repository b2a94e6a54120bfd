//! The records of the structural index.

use vstd::prelude::*;

verus! {

/// The kinds of top-level section of a module.
#[derive(Debug, Copy, Clone, PartialEq, Eq, PartialOrd, Ord, Structural)]
pub enum WasmSectionCode {
    /// Function signature declarations
    Type,
    /// Import declarations
    Import,
    /// Function declarations
    Function,
    /// Indirect function table and other tables
    Table,
    /// Memory attributes
    Memory,
    /// Global declarations
    Global,
    /// Exports
    Export,
    /// Start function declaration
    Start,
    /// Elements section
    Element,
    /// Function bodies (code)
    Code,
    /// Data segments
    Data,
    /// Count of passive data segments
    DataCount,
    /// Custom section declarations
    Custom,
}

/// A section of the module, with the two header fields that follow its code
/// byte.
#[derive(Debug, Copy, Clone, PartialEq, Eq, Structural)]
pub struct WasmSection {
    /// The offset of the code byte of the section.
    pub start_position: usize,
    /// The offset behind the last byte of the section.
    pub end_position: usize,
    /// The kind of the section.
    pub code: WasmSectionCode,
    /// The declared size of the section in bytes.
    pub size: u32,
    /// The number of bytes that encode the size.
    pub size_byte_length: usize,
    /// The declared number of entries; zero for the start section, which
    /// declares none.
    pub count: u32,
    /// The number of bytes that encode the number of entries; zero for the
    /// start section.
    pub count_byte_length: usize,
}

/// An entry of the type section: the shape of a function.
#[derive(Debug, Copy, Clone, PartialEq, Eq, Structural)]
pub struct WasmTypeSignature {
    /// The offset of the first byte of the entry.
    pub start_position: usize,
    /// The offset behind the last byte of the entry.
    pub end_position: usize,
    /// The number of parameters.
    pub num_params: usize,
    /// The number of bytes that encode the number of parameters.
    pub num_params_byte_length: usize,
    /// The number of results.
    pub num_returns: usize,
    /// The number of bytes that encode the number of results.
    pub num_returns_byte_length: usize,
    /// Whether a parameter has the 64-bit integer type.
    pub has_i64_param: bool,
    /// Whether a result has the 64-bit integer type.
    pub has_i64_returns: bool,
}

/// A function of the module, imported or defined by it.
#[derive(Debug, Copy, Clone, PartialEq, Eq, Structural)]
pub struct WasmFunction {
    /// Whether the function is imported.
    pub is_import: bool,
    /// The offset at which the function is imported or declared.
    pub position: usize,
    /// The index of the function among all functions of the module.
    pub function_index: usize,
    /// The index of the type signature of the function.
    pub signature_index: usize,
    /// The number of parameters of the signature.
    pub num_params: usize,
    /// The number of results of the signature.
    pub num_returns: usize,
    /// Whether a parameter of the signature has the 64-bit integer type.
    pub has_i64_param: bool,
    /// Whether a result of the signature has the 64-bit integer type.
    pub has_i64_returns: bool,
}

/// A direct call inside a function body.
#[derive(Debug, Copy, Clone, PartialEq, Eq, Structural)]
pub struct WasmCall {
    /// The offset of the call.
    pub position: usize,
    /// The index of the function that is called.
    pub function_index: usize,
    /// The offset at which the body that holds the call was reported.
    pub function_body_position: usize,
    /// The ordinal of that body among the bodies of the code section, from
    /// zero on.
    pub function_body_index: usize,
}

/// The index of a whole module.
#[derive(Debug)]
pub struct ParsedWasmInfo {
    pub wasm_type_signatures: Vec<WasmTypeSignature>,
    pub wasm_sections: Vec<WasmSection>,
    pub wasm_functions: Vec<WasmFunction>,
    pub wasm_calls: Vec<WasmCall>,
}

/// The index of a whole module as four sequences of records.
pub struct ModuleIndex {
    pub type_signatures: Seq<WasmTypeSignature>,
    pub sections: Seq<WasmSection>,
    pub functions: Seq<WasmFunction>,
    pub calls: Seq<WasmCall>,
}

impl View for ParsedWasmInfo {
    type V = ModuleIndex;

    open spec fn view(&self) -> ModuleIndex {
        ModuleIndex {
            type_signatures: self.wasm_type_signatures@,
            sections: self.wasm_sections@,
            functions: self.wasm_functions@,
            calls: self.wasm_calls@,
        }
    }
}

} // verus!
