//! Reading unsigned variable-length integers (LEB128) out of a raw buffer.

use vstd::prelude::*;

verus! {

/// The largest number of bytes that encode an integer of 32 bits.
pub const MAX_VARUINT_LEN: usize = 5;

/// The seven value bits of an encoded byte.
pub open spec fn payload(byte: u8) -> nat {
    (byte % 128) as nat
}

/// Whether the continuation flag of an encoded byte is set.
pub open spec fn continues(byte: u8) -> bool {
    byte >= 128
}

/// `128` to the power `n`.
pub open spec fn pow128(n: nat) -> nat
    decreases n,
{
    if n == 0 {
        1
    } else {
        128 * pow128((n - 1) as nat)
    }
}

/// The number of bytes occupied by the integer encoded at `at`: the bytes up
/// to the first one without continuation flag. There is none when the buffer
/// ends before such a byte, or when the first `limit` bytes all carry the
/// flag.
pub open spec fn varuint_len(bytes: Seq<u8>, at: int, limit: nat) -> Option<nat>
    decreases limit,
{
    if limit == 0 || at < 0 || at >= bytes.len() {
        None
    } else if !continues(bytes[at]) {
        Some(1)
    } else {
        match varuint_len(bytes, at + 1, (limit - 1) as nat) {
            Some(n) => Some(n + 1),
            None => None,
        }
    }
}

/// The value of the first `len` bytes from `at` on, read as little-endian
/// base-128 digits.
pub open spec fn varuint_value(bytes: Seq<u8>, at: int, len: nat) -> nat
    decreases len,
{
    if len == 0 {
        0
    } else {
        varuint_value(bytes, at, (len - 1) as nat) + payload(bytes[at + len - 1]) * pow128(
            (len - 1) as nat,
        )
    }
}

/// What a read at `offset` yields: the value of the integer encoded there
/// and the number of bytes that it occupies. There is no result when the
/// buffer ends inside the integer, when the integer takes more than five
/// bytes, or when its value does not fit 32 bits.
pub open spec fn decode_varuint(bytes: Seq<u8>, offset: int) -> Option<(u32, usize)> {
    match varuint_len(bytes, offset, MAX_VARUINT_LEN as nat) {
        Some(n) => if varuint_value(bytes, offset, n) <= u32::MAX {
            Some((varuint_value(bytes, offset, n) as u32, n as usize))
        } else {
            None
        },
        None => None,
    }
}

/// An encoded integer occupies at least one byte and at most `limit` bytes,
/// all of them inside the buffer.
pub proof fn lemma_varuint_len_bounds(bytes: Seq<u8>, at: int, limit: nat)
    ensures
        varuint_len(bytes, at, limit) matches Some(n) ==> 1 <= n <= limit && 0 <= at && at + n
            <= bytes.len(),
    decreases limit,
{
    if limit != 0 && 0 <= at < bytes.len() && continues(bytes[at]) {
        lemma_varuint_len_bounds(bytes, at + 1, (limit - 1) as nat);
    }
}

/// Where a read has a result, the integer occupies at least one byte and at
/// most five, all of them inside the buffer.
pub proof fn lemma_decode_varuint_bounds(bytes: Seq<u8>, offset: int)
    ensures
        decode_varuint(bytes, offset) matches Some((_, n)) ==> 1 <= n <= MAX_VARUINT_LEN && 0
            <= offset && offset + n <= bytes.len(),
{
    lemma_varuint_len_bounds(bytes, offset, MAX_VARUINT_LEN as nat);
}

/// The first `len` digits encode a value below `128` to the power `len`.
pub proof fn lemma_varuint_value_bound(bytes: Seq<u8>, at: int, len: nat)
    ensures
        varuint_value(bytes, at, len) < pow128(len),
    decreases len,
{
    if len != 0 {
        let rest = (len - 1) as nat;
        lemma_varuint_value_bound(bytes, at, rest);
        let digit = payload(bytes[at + len - 1]);
        assert(digit * pow128(rest) <= 127 * pow128(rest)) by (nonlinear_arith)
            requires
                digit <= 127,
        ;
    }
}

/// Reads the unsigned variable-length integer that starts at `offset`.
pub fn read_varuint(bytes: &[u8], offset: usize) -> (result: Option<(u32, usize)>)
    ensures
        result == decode_varuint(bytes@, offset as int),
{
    if offset > bytes.len() {
        return None;
    }
    let mut value: u64 = 0;
    let mut scale: u64 = 1;
    let mut length: usize = 0;
    while length < MAX_VARUINT_LEN
        invariant
            length <= MAX_VARUINT_LEN,
            offset + length <= bytes.len(),
            scale == pow128(length as nat),
            value == varuint_value(bytes@, offset as int, length as nat),
            varuint_len(bytes@, offset as int, MAX_VARUINT_LEN as nat) == match varuint_len(
                bytes@,
                offset + length,
                (MAX_VARUINT_LEN - length) as nat,
            ) {
                Some(n) => Some((n + length) as nat),
                None => None,
            },
        decreases MAX_VARUINT_LEN - length,
    {
        if bytes.len() - offset <= length {
            return None;
        }
        let byte: u8 = bytes[offset + length];
        let digit: u64 = (byte & 0x7f) as u64;
        proof {
            assert(byte & 0x7f == byte % 128) by (bit_vector);
            assert((byte & 0x80 == 0) == (byte < 128)) by (bit_vector);
            reveal_with_fuel(pow128, 6);
            lemma_varuint_value_bound(bytes@, offset as int, length as nat);
            assert(digit * scale <= 127 * scale) by (nonlinear_arith)
                requires
                    digit <= 127,
            ;
        }
        value = value + digit * scale;
        length = length + 1;
        if byte & 0x80 == 0 {
            if value > u32::MAX as u64 {
                return None;
            }
            return Some((value as u32, length));
        }
        scale = scale * 128;
    }
    None
}

} // verus!
