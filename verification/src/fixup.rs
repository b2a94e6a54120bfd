//! The two passes that correct positions which the decoder reports wrongly:
//! that of the first imported function, and those of the type signatures.

use crate::model::{WasmFunction, WasmSection, WasmSectionCode, WasmTypeSignature};
use crate::varint::{decode_varuint, lemma_decode_varuint_bounds, read_varuint};
use vstd::prelude::*;

verus! {

/// The first section of kind `code`.
pub open spec fn first_section(sections: Seq<WasmSection>, code: WasmSectionCode) -> Option<
    WasmSection,
>
    decreases sections.len(),
{
    if sections.len() == 0 {
        None
    } else if sections[0].code == code {
        Some(sections[0])
    } else {
        first_section(sections.skip(1), code)
    }
}

/// The offset of the first entry of `section`, counted from the start of the
/// section: one byte for its code, then its two header fields.
pub open spec fn header_length(section: WasmSection) -> int {
    1 + section.size_byte_length + section.count_byte_length
}

/// The offset at which the entries of `section` start: behind its code byte
/// and its two header fields.
pub open spec fn entries_start(section: WasmSection) -> int {
    section.start_position + header_length(section)
}

/// Whether two type signatures have the same counts, the same encoded length
/// of the result count and the same flags.
pub open spec fn same_shape(one: WasmTypeSignature, other: WasmTypeSignature) -> bool {
    &&& one.num_params == other.num_params
    &&& one.num_returns == other.num_returns
    &&& one.num_returns_byte_length == other.num_returns_byte_length
    &&& one.has_i64_param == other.has_i64_param
    &&& one.has_i64_returns == other.has_i64_returns
}

/// Whether the type signatures lie one behind the other from `start` on: the
/// first starts there, each ends where the next one starts, and each, the
/// last one too, ends right behind its own bytes, which are its form byte,
/// its two counts and one byte for each parameter and result.
pub open spec fn lie_contiguous(signatures: Seq<WasmTypeSignature>, start: int) -> bool {
    &&& signatures.len() > 0 ==> signatures[0].start_position == start
    &&& forall|i: int|
        0 <= i < signatures.len() - 1 ==> (#[trigger] signatures[i]).end_position == signatures[i
            + 1].start_position
    &&& forall|i: int|
        0 <= i < signatures.len() ==> (#[trigger] signatures[i]).end_position
            == signatures[i].start_position + 1 + signatures[i].num_params_byte_length
            + signatures[i].num_params + signatures[i].num_returns_byte_length
            + signatures[i].num_returns
}

/// Whether the decoder reported the start of the import section in place of
/// the position of `function`.
pub open spec fn is_first_import(function: WasmFunction) -> bool {
    function.is_import && function.function_index == 0
}

/// `function` with its position moved behind the header of the import
/// section, where it is the first import; unchanged where it is not.
pub open spec fn with_import_position(
    function: WasmFunction,
    import_section: WasmSection,
) -> WasmFunction {
    if is_first_import(function) {
        WasmFunction {
            position: (function.position + header_length(import_section)) as usize,
            ..function
        }
    } else {
        function
    }
}

/// The functions after the import position fix. There is no result when a
/// corrected position does not fit the machine's word.
pub open spec fn fix_import_positions(
    functions: Seq<WasmFunction>,
    import_section: WasmSection,
) -> Option<Seq<WasmFunction>> {
    if exists|i: int|
        0 <= i < functions.len() && is_first_import(#[trigger] functions[i])
            && functions[i].position + header_length(import_section) > usize::MAX {
        None
    } else {
        Some(
            Seq::new(
                functions.len(),
                |i: int| with_import_position(functions[i], import_section),
            ),
        )
    }
}

/// The type signature that starts at `start`, with its offsets and the
/// encoded length of its parameter count corrected: the count is read again
/// right after the first byte of the entry, and the entry ends after its
/// form byte, its two counts and one byte for each parameter and result.
/// There is no result when the count cannot be read, or when the end does
/// not fit the machine's word.
pub open spec fn corrected_signature(
    signature: WasmTypeSignature,
    start: int,
    bytes: Seq<u8>,
) -> Option<WasmTypeSignature> {
    match decode_varuint(bytes, start + 1) {
        None => None,
        Some((_, num_params_byte_length)) => {
            let end = start + num_params_byte_length + signature.num_params
                + signature.num_returns_byte_length + signature.num_returns + 1;
            if 0 <= start && end <= usize::MAX {
                Some(
                    WasmTypeSignature {
                        start_position: start as usize,
                        end_position: end as usize,
                        num_params_byte_length,
                        ..signature
                    },
                )
            } else {
                None
            }
        },
    }
}

/// The first `n` type signatures after the offset fix, where the first
/// starts at `start` and each of the others where the one before it ends.
pub open spec fn corrected_signatures(
    signatures: Seq<WasmTypeSignature>,
    start: int,
    bytes: Seq<u8>,
    n: nat,
) -> Option<Seq<WasmTypeSignature>>
    decreases n,
{
    if n == 0 {
        Some(Seq::empty())
    } else {
        match corrected_signatures(signatures, start, bytes, (n - 1) as nat) {
            None => None,
            Some(done) => {
                let next_start = if n == 1 {
                    start
                } else {
                    done.last().end_position as int
                };
                match corrected_signature(signatures[n - 1], next_start, bytes) {
                    None => None,
                    Some(signature) => Some(done.push(signature)),
                }
            },
        }
    }
}

/// The type signatures after the offset fix; the first entry starts behind
/// the header of the type section.
pub open spec fn fix_type_signatures(
    signatures: Seq<WasmTypeSignature>,
    type_section: WasmSection,
    bytes: Seq<u8>,
) -> Option<Seq<WasmTypeSignature>> {
    corrected_signatures(signatures, entries_start(type_section), bytes, signatures.len())
}

/// Looks up the first section of kind `code`.
pub fn find_section(sections: &Vec<WasmSection>, code: WasmSectionCode) -> (found: Option<
    WasmSection,
>)
    ensures
        found == first_section(sections@, code),
{
    let mut i: usize = 0;
    assert(sections@.skip(0) =~= sections@);
    while i < sections.len()
        invariant
            i <= sections.len(),
            first_section(sections@, code) == first_section(sections@.skip(i as int), code),
        decreases sections.len() - i,
    {
        if sections[i].code == code {
            return Some(sections[i]);
        }
        assert(sections@.skip(i as int).skip(1) =~= sections@.skip(i + 1));
        i = i + 1;
    }
    None
}

/// The import position fix: moves the position of the imported function
/// with index 0 from the start of the import section, which the decoder
/// reports for it, to the start of the first entry of the section.
pub fn fix_import_function_position(
    functions: Vec<WasmFunction>,
    import_section: &WasmSection,
) -> (fixed: Option<Vec<WasmFunction>>)
    ensures
        match fixed {
            Some(fixed) => Some(fixed@) == fix_import_positions(functions@, *import_section),
            None => fix_import_positions(functions@, *import_section).is_none(),
        },
{
    let mut fixed = functions;
    let ghost before = fixed@;
    let header: Option<usize> = match import_section.size_byte_length.checked_add(
        import_section.count_byte_length,
    ) {
        Some(fields) => fields.checked_add(1),
        None => None,
    };
    let mut i: usize = 0;
    while i < fixed.len()
        invariant
            i <= fixed.len(),
            fixed.len() == before.len(),
            before == functions@,
            match header {
                Some(length) => length == header_length(*import_section),
                None => header_length(*import_section) > usize::MAX,
            },
            forall|k: int|
                0 <= k < i ==> fixed@[k] == with_import_position(
                    #[trigger] before[k],
                    *import_section,
                ),
            forall|k: int|
                0 <= k < i ==> !(is_first_import(#[trigger] before[k]) && before[k].position
                    + header_length(*import_section) > usize::MAX),
            forall|k: int| i <= k < fixed.len() ==> fixed@[k] == before[k],
        decreases fixed.len() - i,
    {
        let function = fixed[i];
        if function.is_import && function.function_index == 0 {
            let position = match header {
                Some(length) => function.position.checked_add(length),
                None => None,
            };
            match position {
                Some(position) => {
                    fixed.set(i, WasmFunction { position, ..function });
                },
                None => {
                    assert(before[i as int].position + header_length(*import_section)
                        > usize::MAX);
                    return None;
                },
            }
        }
        i = i + 1;
    }
    Some(fixed)
}

/// Corrects the offsets of the type signature that starts at `start`.
pub fn correct_signature(signature: WasmTypeSignature, start: usize, bytes: &[u8]) -> (corrected:
    Option<WasmTypeSignature>)
    ensures
        corrected == corrected_signature(signature, start as int, bytes@),
{
    if start >= bytes.len() {
        return None;
    }
    let num_params_byte_length = match read_varuint(bytes, start + 1) {
        Some((_, byte_length)) => byte_length,
        None => { return None; },
    };
    proof {
        lemma_decode_varuint_bounds(bytes@, start + 1);
    }
    let end = match (start + num_params_byte_length).checked_add(signature.num_params) {
        Some(end) => match end.checked_add(signature.num_returns_byte_length) {
            Some(end) => match end.checked_add(signature.num_returns) {
                Some(end) => end.checked_add(1),
                None => None,
            },
            None => None,
        },
        None => None,
    };
    match end {
        Some(end_position) => Some(
            WasmTypeSignature {
                start_position: start,
                end_position,
                num_params_byte_length,
                ..signature
            },
        ),
        None => None,
    }
}

/// The type signature offset fix: rebuilds the offsets of every type
/// signature from the start of the type section and from the encoded lengths
/// that it reads in `bytes`, in the order of declaration.
pub fn fix_type_signature_offsets(
    signatures: Vec<WasmTypeSignature>,
    type_section: &WasmSection,
    bytes: &[u8],
) -> (fixed: Option<Vec<WasmTypeSignature>>)
    ensures
        match fixed {
            Some(fixed) => Some(fixed@) == fix_type_signatures(signatures@, *type_section, bytes@),
            None => fix_type_signatures(signatures@, *type_section, bytes@).is_none(),
        },
{
    let ghost first_start = entries_start(*type_section);
    let mut fixed = signatures;
    let ghost before = fixed@;
    if fixed.len() == 0 {
        return Some(fixed);
    }
    let mut next_start: Option<usize> = match type_section.start_position.checked_add(
        type_section.size_byte_length,
    ) {
        Some(position) => match position.checked_add(type_section.count_byte_length) {
            Some(position) => position.checked_add(1),
            None => None,
        },
        None => None,
    };
    let mut i: usize = 0;
    while i < fixed.len()
        invariant
            i <= fixed.len(),
            fixed.len() == before.len(),
            before == signatures@,
            before.len() > 0,
            first_start == entries_start(*type_section),
            corrected_signatures(before, first_start, bytes@, i as nat) == Some(
                fixed@.take(i as int),
            ),
            forall|k: int| i <= k < fixed.len() ==> fixed@[k] == before[k],
            match next_start {
                Some(start) => start == if i == 0 {
                    first_start
                } else {
                    fixed@[i - 1].end_position as int
                },
                None => i == 0 && first_start > usize::MAX,
            },
        decreases fixed.len() - i,
    {
        let signature = fixed[i];
        let corrected = match next_start {
            Some(start) => correct_signature(signature, start, bytes),
            None => None,
        };
        match corrected {
            Some(corrected) => {
                fixed.set(i, corrected);
                next_start = Some(corrected.end_position);
            },
            None => {
                proof {
                    assert(corrected_signatures(before, first_start, bytes@, (i + 1) as nat)
                        .is_none());
                    if fixed.len() > i + 1 {
                        lemma_corrected_signatures_none(
                            before,
                            first_start,
                            bytes@,
                            (i + 1) as nat,
                            before.len(),
                        );
                    }
                }
                return None;
            },
        }
        i = i + 1;
    }
    Some(fixed)
}

/// A run of corrected signatures is contiguous, and each signature in it has
/// the shape that it had before.
pub proof fn lemma_corrected_signatures_shape(
    signatures: Seq<WasmTypeSignature>,
    start: int,
    bytes: Seq<u8>,
    n: nat,
)
    requires
        corrected_signatures(signatures, start, bytes, n).is_some(),
    ensures
        ({
            let fixed = corrected_signatures(signatures, start, bytes, n).unwrap();
            &&& fixed.len() == n
            &&& lie_contiguous(fixed, start)
            &&& forall|i: int| 0 <= i < n ==> same_shape(#[trigger] fixed[i], signatures[i])
        }),
    decreases n,
{
    if n > 0 {
        lemma_corrected_signatures_shape(signatures, start, bytes, (n - 1) as nat);
    }
}

/// Where a run of corrected signatures fails, every longer run fails.
proof fn lemma_corrected_signatures_none(
    signatures: Seq<WasmTypeSignature>,
    start: int,
    bytes: Seq<u8>,
    m: nat,
    n: nat,
)
    requires
        m <= n,
        corrected_signatures(signatures, start, bytes, m).is_none(),
    ensures
        corrected_signatures(signatures, start, bytes, n).is_none(),
    decreases n,
{
    if m < n {
        lemma_corrected_signatures_none(signatures, start, bytes, m, (n - 1) as nat);
    }
}

/// The offset fix reads of a signature only its shape, which it keeps: on
/// two lists of signatures of the same shapes it gives the same result.
proof fn lemma_corrected_signatures_agree(
    first: Seq<WasmTypeSignature>,
    second: Seq<WasmTypeSignature>,
    start: int,
    bytes: Seq<u8>,
    n: nat,
)
    requires
        n <= first.len(),
        n <= second.len(),
        corrected_signatures(first, start, bytes, n).is_some(),
        forall|i: int| 0 <= i < n ==> same_shape(#[trigger] second[i], first[i]),
    ensures
        corrected_signatures(second, start, bytes, n) == corrected_signatures(
            first,
            start,
            bytes,
            n,
        ),
    decreases n,
{
    if n > 0 {
        lemma_corrected_signatures_agree(first, second, start, bytes, (n - 1) as nat);
    }
}

/// Contiguity of the type signatures: after the offset fix they are as many
/// as before and lie one behind the other from the first entry of the type
/// section on, and each has the shape that it had before.
pub proof fn lemma_type_signatures_contiguous(
    signatures: Seq<WasmTypeSignature>,
    type_section: WasmSection,
    bytes: Seq<u8>,
)
    requires
        fix_type_signatures(signatures, type_section, bytes).is_some(),
    ensures
        ({
            let fixed = fix_type_signatures(signatures, type_section, bytes).unwrap();
            &&& fixed.len() == signatures.len()
            &&& lie_contiguous(fixed, entries_start(type_section))
            &&& forall|i: int|
                0 <= i < fixed.len() ==> same_shape(#[trigger] fixed[i], signatures[i])
        }),
{
    lemma_corrected_signatures_shape(
        signatures,
        entries_start(type_section),
        bytes,
        signatures.len(),
    );
}

/// Idempotence of the offset fix: applied to type signatures that it has
/// corrected already, it leaves every offset and every length as it is.
pub proof fn lemma_fix_type_signatures_idempotent(
    signatures: Seq<WasmTypeSignature>,
    type_section: WasmSection,
    bytes: Seq<u8>,
)
    requires
        fix_type_signatures(signatures, type_section, bytes).is_some(),
    ensures
        fix_type_signatures(
            fix_type_signatures(signatures, type_section, bytes).unwrap(),
            type_section,
            bytes,
        ) == fix_type_signatures(signatures, type_section, bytes),
{
    let start = entries_start(type_section);
    let fixed = fix_type_signatures(signatures, type_section, bytes).unwrap();
    lemma_corrected_signatures_shape(signatures, start, bytes, signatures.len());
    lemma_corrected_signatures_agree(signatures, fixed, start, bytes, signatures.len());
}

/// The number of bytes of a type signature as it is recorded: its form
/// byte, its two counts and one byte for each parameter and result.
pub open spec fn entry_length(signature: WasmTypeSignature) -> int {
    1 + signature.num_params_byte_length + signature.num_params
        + signature.num_returns_byte_length + signature.num_returns
}

/// The number of bytes of all the type signatures as they are recorded.
pub open spec fn entries_length(signatures: Seq<WasmTypeSignature>) -> int
    decreases signatures.len(),
{
    if signatures.len() == 0 {
        0
    } else {
        entries_length(signatures.drop_last()) + entry_length(signatures.last())
    }
}

/// The last of type signatures that lie contiguous from `start` on ends
/// behind as many bytes from there as all of them have.
pub proof fn lemma_last_signature_end(signatures: Seq<WasmTypeSignature>, start: int)
    requires
        signatures.len() > 0,
        lie_contiguous(signatures, start),
    ensures
        signatures.last().end_position == start + entries_length(signatures),
    decreases signatures.len(),
{
    let front = signatures.drop_last();
    if front.len() > 0 {
        assert(lie_contiguous(front, start));
        lemma_last_signature_end(front, start);
    } else {
        assert(entries_length(front) == 0);
    }
}

} // verus!
