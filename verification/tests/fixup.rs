use wasi_js_transformer::fixup::{
    correct_signature, find_section, fix_import_function_position, fix_type_signature_offsets,
};
use wasi_js_transformer::model::{
    WasmFunction, WasmSection, WasmSectionCode, WasmTypeSignature,
};

fn section(code: WasmSectionCode, start_position: usize) -> WasmSection {
    WasmSection {
        start_position,
        end_position: start_position + 10,
        code,
        size: 8,
        size_byte_length: 1,
        count: 1,
        count_byte_length: 1,
    }
}

fn function(is_import: bool, function_index: usize, position: usize) -> WasmFunction {
    WasmFunction {
        is_import,
        position,
        function_index,
        signature_index: 0,
        num_params: 0,
        num_returns: 0,
        has_i64_param: false,
        has_i64_returns: false,
    }
}

fn draft(position: usize, num_params: usize, num_returns: usize) -> WasmTypeSignature {
    WasmTypeSignature {
        start_position: position,
        end_position: 0,
        num_params,
        num_params_byte_length: 0,
        num_returns,
        num_returns_byte_length: 1,
        has_i64_param: false,
        has_i64_returns: false,
    }
}

#[test]
fn finds_the_first_section_of_a_kind() {
    let sections = vec![
        section(WasmSectionCode::Custom, 8),
        section(WasmSectionCode::Type, 18),
        section(WasmSectionCode::Custom, 28),
        section(WasmSectionCode::Type, 38),
    ];
    assert_eq!(find_section(&sections, WasmSectionCode::Type), Some(sections[1]));
    assert_eq!(find_section(&sections, WasmSectionCode::Custom), Some(sections[0]));
    assert_eq!(find_section(&sections, WasmSectionCode::Import), None);
    assert_eq!(find_section(&Vec::new(), WasmSectionCode::Type), None);
}

#[test]
fn moves_the_import_with_index_zero() {
    let mut import_section = section(WasmSectionCode::Import, 20);
    import_section.size_byte_length = 2;
    import_section.count_byte_length = 3;
    let functions = vec![function(true, 0, 20), function(true, 1, 30), function(false, 2, 40)];
    let fixed = fix_import_function_position(functions, &import_section).unwrap();
    assert_eq!(
        fixed,
        vec![function(true, 0, 26), function(true, 1, 30), function(false, 2, 40)]
    );
}

#[test]
fn moves_no_declared_function() {
    let import_section = section(WasmSectionCode::Import, 20);
    let functions = vec![function(false, 0, 20), function(true, 1, 30)];
    let fixed = fix_import_function_position(functions.clone(), &import_section).unwrap();
    assert_eq!(fixed, functions);
    assert_eq!(fix_import_function_position(Vec::new(), &import_section), Some(Vec::new()));
}

#[test]
fn the_import_fix_adds_each_time() {
    let import_section = section(WasmSectionCode::Import, 20);
    let once =
        fix_import_function_position(vec![function(true, 0, 20)], &import_section).unwrap();
    let twice = fix_import_function_position(once.clone(), &import_section).unwrap();
    assert_eq!(once[0].position, 23);
    assert_eq!(twice[0].position, 26);
}

#[test]
fn the_import_fix_fails_beyond_the_largest_position() {
    let mut import_section = section(WasmSectionCode::Import, 20);
    let functions = vec![function(true, 0, usize::MAX - 2)];
    assert_eq!(fix_import_function_position(functions, &import_section), None);
    import_section.size_byte_length = usize::MAX;
    assert_eq!(fix_import_function_position(vec![function(true, 0, 0)], &import_section), None);
    // nothing is to be moved, so nothing is too large
    let functions = vec![function(false, 0, usize::MAX), function(true, 1, usize::MAX)];
    assert_eq!(
        fix_import_function_position(functions.clone(), &import_section),
        Some(functions)
    );
}

/// A type section at offset 2 with three entries:
/// (i32, i32) -> i32, () -> (), and one with 130 parameters and one result.
fn type_section_bytes() -> Vec<u8> {
    let mut bytes = vec![0xff, 0xff, 0x01, 0x91, 0x01, 0x03];
    bytes.extend(vec![0x60, 0x02, 0x7f, 0x7f, 0x01, 0x7f]);
    bytes.extend(vec![0x60, 0x00, 0x00]);
    bytes.extend(vec![0x60, 0x82, 0x01]);
    bytes.extend(vec![0x7f; 130]);
    bytes.extend(vec![0x01, 0x7e]);
    bytes.extend(vec![0x02, 0x01, 0x00, 0x00]);
    bytes
}

fn type_section() -> WasmSection {
    WasmSection {
        start_position: 2,
        end_position: 150,
        code: WasmSectionCode::Type,
        size: 145,
        size_byte_length: 2,
        count: 3,
        count_byte_length: 1,
    }
}

fn corrected(
    start_position: usize,
    end_position: usize,
    num_params: usize,
    num_params_byte_length: usize,
    num_returns: usize,
) -> WasmTypeSignature {
    WasmTypeSignature {
        start_position,
        end_position,
        num_params,
        num_params_byte_length,
        num_returns,
        num_returns_byte_length: 1,
        has_i64_param: false,
        has_i64_returns: false,
    }
}

#[test]
fn rebuilds_the_offsets_in_order() {
    let drafts = vec![draft(150, 2, 1), draft(12, 0, 0), draft(15, 130, 1)];
    let fixed = fix_type_signature_offsets(drafts, &type_section(), &type_section_bytes());
    assert_eq!(
        fixed,
        Some(vec![
            corrected(6, 12, 2, 1, 1),
            corrected(12, 15, 0, 1, 0),
            corrected(15, 150, 130, 2, 1),
        ])
    );
}

#[test]
fn the_offset_fix_is_idempotent() {
    let bytes = type_section_bytes();
    let drafts = vec![draft(150, 2, 1), draft(12, 0, 0), draft(15, 130, 1)];
    let once = fix_type_signature_offsets(drafts, &type_section(), &bytes).unwrap();
    let twice = fix_type_signature_offsets(once.clone(), &type_section(), &bytes).unwrap();
    assert_eq!(once, twice);
}

#[test]
fn the_offset_fix_keeps_counts_and_flags() {
    let mut only = draft(0, 0, 0);
    only.has_i64_param = true;
    only.has_i64_returns = true;
    only.num_returns_byte_length = 2;
    let bytes = type_section_bytes();
    let fixed = fix_type_signature_offsets(vec![only], &type_section(), &bytes).unwrap();
    assert_eq!(fixed.len(), 1);
    assert!(fixed[0].has_i64_param);
    assert!(fixed[0].has_i64_returns);
    assert_eq!(fixed[0].num_returns_byte_length, 2);
    assert_eq!(fixed[0].start_position, 6);
    // the parameter count in the bytes takes one byte; the counts of the record are 0
    assert_eq!(fixed[0].end_position, 6 + 1 + 0 + 2 + 0 + 1);
}

#[test]
fn the_offset_fix_leaves_an_empty_list() {
    let mut far = type_section();
    far.start_position = usize::MAX;
    assert_eq!(fix_type_signature_offsets(Vec::new(), &far, &type_section_bytes()), Some(vec![]));
}

#[test]
fn the_offset_fix_fails_past_the_end() {
    let bytes = type_section_bytes();
    // a fourth entry starts at 150 and ends at 153; the parameter count of a
    // fifth would lie at 154, behind the last byte
    let drafts = vec![draft(0, 2, 1), draft(0, 0, 0), draft(0, 130, 1), draft(0, 0, 0)];
    let fixed = fix_type_signature_offsets(drafts.clone(), &type_section(), &bytes).unwrap();
    assert_eq!(fixed[3], corrected(150, 153, 0, 1, 0));
    let mut drafts = drafts;
    drafts.push(draft(0, 0, 0));
    assert_eq!(fix_type_signature_offsets(drafts, &type_section(), &bytes), None);
    let mut far = type_section();
    far.start_position = usize::MAX - 3;
    assert_eq!(fix_type_signature_offsets(vec![draft(0, 0, 0)], &far, &bytes), None);
    far.start_position = usize::MAX - 4;
    assert_eq!(fix_type_signature_offsets(vec![draft(0, 0, 0)], &far, &bytes), None);
}

#[test]
fn corrects_one_signature() {
    let bytes = type_section_bytes();
    assert_eq!(correct_signature(draft(99, 2, 1), 6, &bytes), Some(corrected(6, 12, 2, 1, 1)));
    assert_eq!(
        correct_signature(draft(99, 130, 1), 15, &bytes),
        Some(corrected(15, 150, 130, 2, 1))
    );
    assert_eq!(correct_signature(draft(99, 0, 0), 149, &bytes), Some(corrected(149, 152, 0, 1, 0)));
    assert_eq!(correct_signature(draft(99, 0, 0), 152, &bytes), Some(corrected(152, 155, 0, 1, 0)));
    assert_eq!(correct_signature(draft(99, 0, 0), 153, &bytes), None);
    assert_eq!(correct_signature(draft(99, 0, 0), 154, &bytes), None);
    assert_eq!(correct_signature(draft(99, 0, 0), usize::MAX, &bytes), None);
    assert_eq!(correct_signature(draft(99, usize::MAX, 0), 6, &bytes), None);
    assert_eq!(correct_signature(draft(99, 0, usize::MAX - 8), 6, &bytes), None);
    assert_eq!(
        correct_signature(draft(99, 0, usize::MAX - 9), 6, &bytes),
        Some(corrected(6, usize::MAX, 0, 1, usize::MAX - 9))
    );
}
