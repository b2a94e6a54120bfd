use wasi_js_transformer::event::{WasmEvent, WasmValueType};
use wasi_js_transformer::model::{WasmSection, WasmSectionCode};
use wasi_js_transformer::walk::{contains_i64, read_section_header, ModuleWalker};

fn header_bytes() -> Vec<u8> {
    // a type section with a size in two bytes, an import section, a start
    // section, and bytes to spare
    vec![
        0x01, 0x85, 0x01, 0x03, 0xaa, 0xbb, // 0: type section, size 133, count 3
        0x02, 0x07, 0x80, 0x01, 0xcc, 0xdd, // 6: import section, size 7, count 128
        0x08, 0x01, 0x05, 0x00, 0x00, 0x00, // 12: start section, size 1
    ]
}

#[test]
fn reads_size_and_count_behind_the_code_byte() {
    let bytes = header_bytes();
    assert_eq!(
        read_section_header(0, WasmSectionCode::Type, &bytes),
        Some(WasmSection {
            start_position: 0,
            end_position: 0,
            code: WasmSectionCode::Type,
            size: 133,
            size_byte_length: 2,
            count: 3,
            count_byte_length: 1,
        })
    );
    assert_eq!(
        read_section_header(6, WasmSectionCode::Import, &bytes),
        Some(WasmSection {
            start_position: 6,
            end_position: 0,
            code: WasmSectionCode::Import,
            size: 7,
            size_byte_length: 1,
            count: 128,
            count_byte_length: 2,
        })
    );
}

#[test]
fn reads_no_count_for_the_start_section() {
    let bytes = header_bytes();
    assert_eq!(
        read_section_header(12, WasmSectionCode::Start, &bytes),
        Some(WasmSection {
            start_position: 12,
            end_position: 0,
            code: WasmSectionCode::Start,
            size: 1,
            size_byte_length: 1,
            count: 0,
            count_byte_length: 0,
        })
    );
    // any other kind at the same place has a count
    let section = read_section_header(12, WasmSectionCode::Data, &bytes).unwrap();
    assert_eq!(section.count, 5);
    assert_eq!(section.count_byte_length, 1);
}

#[test]
fn reads_no_header_near_the_end() {
    let bytes = header_bytes();
    // the last byte holds a size, and no count follows it
    let section = read_section_header(16, WasmSectionCode::Start, &bytes).unwrap();
    assert_eq!((section.size, section.size_byte_length), (0, 1));
    assert!(read_section_header(16, WasmSectionCode::Custom, &bytes).is_none());
    assert!(read_section_header(17, WasmSectionCode::Start, &bytes).is_none());
    assert!(read_section_header(18, WasmSectionCode::Start, &bytes).is_none());
    assert!(read_section_header(usize::MAX, WasmSectionCode::Start, &bytes).is_none());
    // the size at offset 8 runs on to the end of the bytes
    let cut = &bytes[..9];
    assert!(read_section_header(7, WasmSectionCode::Start, cut).is_none());
    assert!(read_section_header(6, WasmSectionCode::Start, cut).is_some());
    assert!(read_section_header(6, WasmSectionCode::Data, cut).is_none());
}

#[test]
fn finds_the_64_bit_integer_type() {
    assert!(!contains_i64(&vec![]));
    assert!(!contains_i64(&vec![WasmValueType::I32, WasmValueType::I32]));
    assert!(!contains_i64(&vec![WasmValueType::F64, WasmValueType::V128]));
    assert!(contains_i64(&vec![WasmValueType::I64]));
    assert!(contains_i64(&vec![WasmValueType::I32, WasmValueType::F32, WasmValueType::I64]));
    assert!(contains_i64(&vec![WasmValueType::I64, WasmValueType::I32]));
}

#[test]
fn walks_section_by_section() {
    let bytes = header_bytes();
    let mut walker = ModuleWalker::new();
    assert!(!walker.end_section(0));
    assert!(walker.begin_section(0, WasmSectionCode::Type, &bytes));
    assert!(!walker.begin_section(6, WasmSectionCode::Import, &bytes));
    assert!(walker.end_section(6));
    assert!(!walker.end_section(6));
    assert!(!walker.begin_section(16, WasmSectionCode::Import, &bytes));
    assert!(walker.begin_section(6, WasmSectionCode::Import, &bytes));
    assert!(walker.end_section(12));
    let info = walker.finish(&bytes).unwrap();
    let spans: Vec<(WasmSectionCode, usize, usize)> = info
        .wasm_sections
        .iter()
        .map(|section| (section.code, section.start_position, section.end_position))
        .collect();
    assert_eq!(
        spans,
        vec![(WasmSectionCode::Type, 0, 6), (WasmSectionCode::Import, 6, 12)]
    );
}

#[test]
fn collects_functions_with_the_shape_of_their_signature() {
    let bytes = header_bytes();
    let mut walker = ModuleWalker::new();
    assert!(!walker.add_function(1, 0, false));
    walker.add_type_signature(3, &vec![WasmValueType::I64, WasmValueType::I32], &vec![]);
    walker.add_type_signature(4, &vec![], &vec![WasmValueType::I64]);
    assert!(!walker.add_function(1, 2, true));
    assert!(walker.add_function(9, 1, false));
    assert!(walker.add_function(10, 0, true));
    assert!(walker.apply(0, &WasmEvent::BeginSection(WasmSectionCode::Type), &bytes));
    assert!(walker.apply(6, &WasmEvent::EndSection, &bytes));
    assert!(walker.apply(6, &WasmEvent::BeginSection(WasmSectionCode::Import), &bytes));
    assert!(walker.apply(12, &WasmEvent::EndSection, &bytes));
    let info = walker.finish(&bytes).unwrap();
    assert_eq!(info.wasm_functions.len(), 2);
    let first = &info.wasm_functions[0];
    assert_eq!(
        (first.function_index, first.signature_index, first.is_import, first.position),
        (0, 1, false, 9)
    );
    assert_eq!((first.num_params, first.num_returns), (0, 1));
    assert_eq!((first.has_i64_param, first.has_i64_returns), (false, true));
    let second = &info.wasm_functions[1];
    assert_eq!(
        (second.function_index, second.signature_index, second.is_import, second.position),
        (1, 0, true, 10)
    );
    assert_eq!((second.num_params, second.num_returns), (2, 0));
    assert_eq!((second.has_i64_param, second.has_i64_returns), (true, false));
}

#[test]
fn counts_bodies_as_they_end() {
    let bytes = header_bytes();
    let mut walker = ModuleWalker::new();
    walker.add_type_signature(3, &vec![], &vec![]);
    assert!(walker.add_function(4, 0, false));
    assert!(walker.add_function(5, 0, false));
    walker.add_call(1, 0);
    walker.begin_function_body(20);
    walker.add_call(21, 1);
    assert!(walker.end_function_body());
    assert!(walker.end_function_body());
    walker.add_call(30, 0);
    walker.begin_function_body(40);
    walker.add_call(41, 1);
    walker.begin_section(0, WasmSectionCode::Type, &bytes);
    walker.end_section(6);
    walker.begin_section(6, WasmSectionCode::Import, &bytes);
    walker.end_section(12);
    let info = walker.finish(&bytes).unwrap();
    let calls: Vec<(usize, usize, usize, usize)> = info
        .wasm_calls
        .iter()
        .map(|call| {
            (
                call.position,
                call.function_index,
                call.function_body_position,
                call.function_body_index,
            )
        })
        .collect();
    assert_eq!(calls, vec![(1, 0, 0, 0), (21, 1, 20, 0), (30, 0, 20, 2), (41, 1, 40, 2)]);
}

#[test]
fn a_walk_with_a_call_of_no_function_has_no_index() {
    let bytes = header_bytes();
    let mut walker = ModuleWalker::new();
    walker.add_type_signature(3, &vec![], &vec![]);
    assert!(walker.add_function(4, 0, false));
    assert!(walker.add_function(5, 0, true));
    walker.add_call(21, 1);
    // the call comes before the function that it names
    walker.add_call(22, 2);
    assert!(walker.add_function(6, 0, false));
    walker.begin_section(0, WasmSectionCode::Type, &bytes);
    walker.end_section(6);
    walker.begin_section(6, WasmSectionCode::Import, &bytes);
    walker.end_section(12);
    walker.add_call(23, 3);
    assert!(walker.finish(&bytes).is_none());
}

#[test]
fn a_call_may_come_before_the_function_that_it_names() {
    let bytes = header_bytes();
    let mut walker = ModuleWalker::new();
    walker.add_type_signature(3, &vec![], &vec![]);
    walker.add_call(22, 1);
    assert!(walker.add_function(4, 0, false));
    assert!(walker.add_function(5, 0, false));
    walker.begin_section(0, WasmSectionCode::Type, &bytes);
    walker.end_section(6);
    walker.begin_section(6, WasmSectionCode::Import, &bytes);
    walker.end_section(12);
    let info = walker.finish(&bytes).unwrap();
    assert_eq!(info.wasm_calls.len(), 1);
    assert_eq!(info.wasm_functions[info.wasm_calls[0].function_index].function_index, 1);
}

#[test]
fn a_failed_step_changes_nothing() {
    let bytes = header_bytes();
    let mut walker = ModuleWalker::new();
    walker.add_type_signature(3, &vec![], &vec![]);
    assert!(!walker.apply(1, &WasmEvent::FunctionImport(4), &bytes));
    assert!(!walker.apply(1, &WasmEvent::DecodeError, &bytes));
    assert!(!walker.apply(17, &WasmEvent::BeginSection(WasmSectionCode::Code), &bytes));
    assert!(!walker.apply(1, &WasmEvent::EndSection, &bytes));
    assert!(walker.apply(1, &WasmEvent::Other, &bytes));
    assert!(walker.apply(1, &WasmEvent::EndWasm, &bytes));
    assert!(walker.apply(0, &WasmEvent::BeginSection(WasmSectionCode::Type), &bytes));
    assert!(walker.apply(6, &WasmEvent::EndSection, &bytes));
    assert!(walker.apply(6, &WasmEvent::BeginSection(WasmSectionCode::Import), &bytes));
    assert!(walker.apply(12, &WasmEvent::EndSection, &bytes));
    let info = walker.finish(&bytes).unwrap();
    assert_eq!(info.wasm_sections.len(), 2);
    assert_eq!(info.wasm_type_signatures.len(), 1);
    assert!(info.wasm_functions.is_empty());
    assert!(info.wasm_calls.is_empty());
}

#[test]
fn a_walk_without_sections_has_no_index() {
    let walker = ModuleWalker::new();
    assert!(walker.finish(&header_bytes()).is_none());
}
