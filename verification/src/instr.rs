//! Tags: the one- or two-byte prefix that names the variant of a sum value.
//!
//! An index below 128 is its own single byte. A larger index takes two bytes,
//! the first carrying the high bits with its top bit set as a continuation
//! marker, which leaves fifteen bits and so at most 32768 variants.

use crate::error::BytecodeError;
use vstd::prelude::*;

verus! {

/// The largest number of variants a sum type may have.
pub const MAX_VARIANTS_ALLOWED: usize = 32768;

/// Indices below this limit are encoded in a single byte.
pub const SINGLE_BYTE_LIMIT: usize = 128;

/// The first byte of a two-byte tag: bits 8..16 of `v` with the top bit set.
pub open spec fn spec_higher_byte(v: nat) -> u8 {
    let high = (v / 256) % 256;
    if high < 128 {
        (high + 128) as u8
    } else {
        high as u8
    }
}

/// The second byte of a two-byte tag: the low eight bits of `v`.
pub open spec fn spec_lower_byte(v: nat) -> u8 {
    (v % 256) as u8
}

/// The tag of variant index `v`.
pub open spec fn spec_compile_instr(v: nat) -> Seq<u8> {
    if v < 128 {
        seq![v as u8]
    } else {
        seq![spec_higher_byte(v), spec_lower_byte(v)]
    }
}

/// The index that a two-byte tag with first byte `b0 >= 128` stands for.
pub open spec fn spec_two_byte_index(b0: u8, b1: u8) -> nat {
    ((b0 - 128) * 256 + b1) as nat
}

/// Reading a tag of a sum type with `n` variants from the front of `bytes`:
/// the variant index and the tag's length, or the error.
pub open spec fn spec_parse_instr(n: nat, bytes: Seq<u8>) -> Result<(nat, nat), BytecodeError> {
    if bytes.len() == 0 {
        Err(BytecodeError::IncompleteInstruction)
    } else if n <= 128 {
        if bytes[0] >= n {
            Err(BytecodeError::InvalidInstruction)
        } else {
            Ok((bytes[0] as nat, 1nat))
        }
    } else if bytes[0] < 128 {
        Ok((bytes[0] as nat, 1nat))
    } else if bytes.len() < 2 {
        Err(BytecodeError::IncompleteInstruction)
    } else if spec_two_byte_index(bytes[0], bytes[1]) >= n {
        Err(BytecodeError::InvalidInstruction)
    } else {
        Ok((spec_two_byte_index(bytes[0], bytes[1]), 2nat))
    }
}

/// What reading a tag gave, with the index and the length as plain numbers.
pub open spec fn spec_located(r: Result<(usize, usize), BytecodeError>) -> Result<
    (nat, nat),
    BytecodeError,
> {
    match r {
        Ok((index, len)) => Ok((index as nat, len as nat)),
        Err(e) => Err(e),
    }
}

/// A tag in front of any bytes reads back as its own index and length,
/// whenever the index is one of the type's `n <= 32768` variants.
pub proof fn lemma_instr_roundtrip(n: nat, v: nat, rest: Seq<u8>)
    requires
        v < n,
        n <= MAX_VARIANTS_ALLOWED,
    ensures
        spec_parse_instr(n, spec_compile_instr(v) + rest) == Ok::<(nat, nat), BytecodeError>(
            (v, spec_compile_instr(v).len()),
        ),
{
    let tag = spec_compile_instr(v);
    let bytes = tag + rest;
    assert(bytes[0] == tag[0]);
    if v >= 128 {
        assert(bytes[1] == tag[1]);
        assert(spec_two_byte_index(tag[0], tag[1]) == v);
    }
}

/// Splits an index into the two bytes of a long tag.
pub fn split_into_instr_bytes(v: usize) -> (out: [u8; 2])
    ensures
        out[0] == spec_higher_byte(v as nat),
        out[1] == spec_lower_byte(v as nat),
{
    let higher_byte: u8 = (#[verifier::truncate] ((v >> 8) as u8)) | 0x80u8;
    let lower_byte: u8 = #[verifier::truncate] (v as u8);
    assert(higher_byte == (if (v / 256) % 256 < 128 {
        ((v / 256) % 256 + 128) as u8
    } else {
        ((v / 256) % 256) as u8
    })) by (bit_vector)
        requires
            higher_byte == (((v >> 8) as u8) | 0x80u8),
    ;
    assert(lower_byte == (v % 256) as u8) by (bit_vector)
        requires
            lower_byte == v as u8,
    ;
    [higher_byte, lower_byte]
}

/// Encodes a variant index as its tag.
pub fn compile_instr(v: usize) -> (out: Vec<u8>)
    ensures
        out@ == spec_compile_instr(v as nat),
{
    let mut out: Vec<u8> = Vec::new();
    if v < SINGLE_BYTE_LIMIT {
        out.push(v as u8);
    } else {
        let pair = split_into_instr_bytes(v);
        out.push(pair[0]);
        out.push(pair[1]);
    }
    out
}

/// Reads and validates the tag at the front of `bytes` for a sum type with
/// `n` variants. Nothing behind the tag is looked at.
pub fn parse_instr(n: usize, bytes: &[u8]) -> (r: Result<(usize, usize), BytecodeError>)
    ensures
        spec_located(r) == spec_parse_instr(n as nat, bytes@),
{
    if bytes.len() < 1 {
        return Err(BytecodeError::IncompleteInstruction);
    }
    let b0: u8 = bytes[0];
    if n <= SINGLE_BYTE_LIMIT {
        if b0 as usize >= n {
            return Err(BytecodeError::InvalidInstruction);
        }
        return Ok((b0 as usize, 1));
    }
    if b0 < 0x80 {
        return Ok((b0 as usize, 1));
    }
    if bytes.len() < 2 {
        return Err(BytecodeError::IncompleteInstruction);
    }
    let b1: u8 = bytes[1];
    let instr: u16 = (((b0 & 0x7F) as u16) << 8) | (b1 as u16);
    assert(instr == (b0 - 128) * 256 + b1) by (bit_vector)
        requires
            b0 >= 128,
            instr == (((b0 & 0x7F) as u16) << 8) | (b1 as u16),
    ;
    if instr as usize >= n {
        return Err(BytecodeError::InvalidInstruction);
    }
    Ok((instr as usize, 2))
}

} // verus!
