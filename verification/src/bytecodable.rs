//! The codec interface and its implementations for the primitive types.

use crate::error::BytecodeError;
use crate::primitive::{
    le_bytes, le_value, lemma_le_bytes_len, lemma_le_roundtrip, lemma_le_value_bound,
    lemma_radix_values, spec_consumed, spec_le_bytes, spec_parse_unsigned, spec_to_signed,
    spec_to_unsigned,
};
use vstd::prelude::*;

verus! {

/// A type with a byte encoding that can be read back.
///
/// `compile` writes a value; `parse` reads one from the front of a buffer and
/// says how many bytes it took. Every implementation proves that what it
/// writes reads back as the same value, whatever bytes follow, and that an
/// empty buffer is always reported as incomplete.
pub trait Bytecodable: Sized {
    /// The bytes that stand for `self`.
    spec fn spec_compile(&self) -> Seq<u8>;

    /// The value at the front of `bytes` with the number of bytes it takes,
    /// or the error that reading it gives.
    spec fn spec_parse(bytes: Seq<u8>) -> Result<(Self, nat), BytecodeError>;

    /// Encodes `self`.
    fn compile(&self) -> (out: Vec<u8>)
        ensures
            out@ == self.spec_compile(),
    ;

    /// Decodes one value from the front of `bytes`; trailing bytes are left
    /// alone.
    fn parse(bytes: &[u8]) -> (r: Result<(Self, usize), BytecodeError>)
        ensures
            spec_consumed(r) == Self::spec_parse(bytes@),
    ;

    /// An encoding followed by any bytes decodes to the value it came from
    /// and consumes exactly the encoding.
    proof fn lemma_roundtrip(&self, rest: Seq<u8>)
        ensures
            Self::spec_parse(self.spec_compile() + rest) == Ok::<(Self, nat), BytecodeError>(
                (*self, self.spec_compile().len()),
            ),
    ;

    /// Nothing can be decoded from an empty buffer.
    proof fn lemma_empty_is_incomplete()
        ensures
            Self::spec_parse(Seq::<u8>::empty()) == Err::<(Self, nat), BytecodeError>(
                BytecodeError::IncompleteInstruction,
            ),
    ;
}

impl Bytecodable for u8 {
    open spec fn spec_compile(&self) -> Seq<u8> {
        spec_le_bytes(*self as nat, 1)
    }

    open spec fn spec_parse(bytes: Seq<u8>) -> Result<(u8, nat), BytecodeError> {
        match spec_parse_unsigned(bytes, 1) {
            Ok((x, len)) => Ok((x as u8, len)),
            Err(e) => Err(e),
        }
    }

    fn compile(&self) -> (out: Vec<u8>) {
        le_bytes(*self as u64, 1)
    }

    fn parse(bytes: &[u8]) -> (r: Result<(u8, usize), BytecodeError>) {
        if bytes.len() < 1 {
            return Err(BytecodeError::IncompleteInstruction);
        }
        let x: u64 = le_value(bytes, 1);
        proof {
            lemma_radix_values();
            lemma_le_value_bound(bytes@, 1);
        }
        Ok((x as u8, 1))
    }

    proof fn lemma_roundtrip(&self, rest: Seq<u8>) {
        lemma_radix_values();
        lemma_le_bytes_len(*self as nat, 1);
        lemma_le_roundtrip(*self as nat, 1, rest);
    }

    proof fn lemma_empty_is_incomplete() {
    }
}

impl Bytecodable for u16 {
    open spec fn spec_compile(&self) -> Seq<u8> {
        spec_le_bytes(*self as nat, 2)
    }

    open spec fn spec_parse(bytes: Seq<u8>) -> Result<(u16, nat), BytecodeError> {
        match spec_parse_unsigned(bytes, 2) {
            Ok((x, len)) => Ok((x as u16, len)),
            Err(e) => Err(e),
        }
    }

    fn compile(&self) -> (out: Vec<u8>) {
        le_bytes(*self as u64, 2)
    }

    fn parse(bytes: &[u8]) -> (r: Result<(u16, usize), BytecodeError>) {
        if bytes.len() < 2 {
            return Err(BytecodeError::IncompleteInstruction);
        }
        let x: u64 = le_value(bytes, 2);
        proof {
            lemma_radix_values();
            lemma_le_value_bound(bytes@, 2);
        }
        Ok((x as u16, 2))
    }

    proof fn lemma_roundtrip(&self, rest: Seq<u8>) {
        lemma_radix_values();
        lemma_le_bytes_len(*self as nat, 2);
        lemma_le_roundtrip(*self as nat, 2, rest);
    }

    proof fn lemma_empty_is_incomplete() {
    }
}

impl Bytecodable for u32 {
    open spec fn spec_compile(&self) -> Seq<u8> {
        spec_le_bytes(*self as nat, 4)
    }

    open spec fn spec_parse(bytes: Seq<u8>) -> Result<(u32, nat), BytecodeError> {
        match spec_parse_unsigned(bytes, 4) {
            Ok((x, len)) => Ok((x as u32, len)),
            Err(e) => Err(e),
        }
    }

    fn compile(&self) -> (out: Vec<u8>) {
        le_bytes(*self as u64, 4)
    }

    fn parse(bytes: &[u8]) -> (r: Result<(u32, usize), BytecodeError>) {
        if bytes.len() < 4 {
            return Err(BytecodeError::IncompleteInstruction);
        }
        let x: u64 = le_value(bytes, 4);
        proof {
            lemma_radix_values();
            lemma_le_value_bound(bytes@, 4);
        }
        Ok((x as u32, 4))
    }

    proof fn lemma_roundtrip(&self, rest: Seq<u8>) {
        lemma_radix_values();
        lemma_le_bytes_len(*self as nat, 4);
        lemma_le_roundtrip(*self as nat, 4, rest);
    }

    proof fn lemma_empty_is_incomplete() {
    }
}

impl Bytecodable for u64 {
    open spec fn spec_compile(&self) -> Seq<u8> {
        spec_le_bytes(*self as nat, 8)
    }

    open spec fn spec_parse(bytes: Seq<u8>) -> Result<(u64, nat), BytecodeError> {
        match spec_parse_unsigned(bytes, 8) {
            Ok((x, len)) => Ok((x as u64, len)),
            Err(e) => Err(e),
        }
    }

    fn compile(&self) -> (out: Vec<u8>) {
        le_bytes(*self, 8)
    }

    fn parse(bytes: &[u8]) -> (r: Result<(u64, usize), BytecodeError>) {
        if bytes.len() < 8 {
            return Err(BytecodeError::IncompleteInstruction);
        }
        let x: u64 = le_value(bytes, 8);
        proof {
            lemma_radix_values();
            lemma_le_value_bound(bytes@, 8);
        }
        Ok((x, 8))
    }

    proof fn lemma_roundtrip(&self, rest: Seq<u8>) {
        lemma_radix_values();
        lemma_le_bytes_len(*self as nat, 8);
        lemma_le_roundtrip(*self as nat, 8, rest);
    }

    proof fn lemma_empty_is_incomplete() {
    }
}

impl Bytecodable for i8 {
    open spec fn spec_compile(&self) -> Seq<u8> {
        spec_le_bytes(spec_to_unsigned(*self as int, 1), 1)
    }

    open spec fn spec_parse(bytes: Seq<u8>) -> Result<(i8, nat), BytecodeError> {
        match spec_parse_unsigned(bytes, 1) {
            Ok((x, len)) => Ok((spec_to_signed(x, 1) as i8, len)),
            Err(e) => Err(e),
        }
    }

    fn compile(&self) -> (out: Vec<u8>) {
        let x: i8 = *self;
        let bits: u8 = #[verifier::truncate] (x as u8);
        proof {
            lemma_radix_values();
            assert(bits == (if x < 0 {
                x + 0x100
            } else {
                x as int
            })) by (bit_vector)
                requires
                    bits == x as u8,
            ;
        }
        bits.compile()
    }

    fn parse(bytes: &[u8]) -> (r: Result<(i8, usize), BytecodeError>) {
        match u8::parse(bytes) {
            Ok((bits, len)) => {
                let x: i8 = #[verifier::truncate] (bits as i8);
                proof {
                    lemma_radix_values();
                    assert(x == (if 2 * bits >= 0x100 {
                        bits - 0x100
                    } else {
                        bits as int
                    })) by (bit_vector)
                        requires
                            x == bits as i8,
                    ;
                    lemma_le_value_bound(bytes@, 1);
                }
                Ok((x, len))
            },
            Err(e) => Err(e),
        }
    }

    proof fn lemma_roundtrip(&self, rest: Seq<u8>) {
        lemma_radix_values();
        let bits = spec_to_unsigned(*self as int, 1);
        lemma_le_bytes_len(bits, 1);
        lemma_le_roundtrip(bits, 1, rest);
    }

    proof fn lemma_empty_is_incomplete() {
    }
}

impl Bytecodable for i16 {
    open spec fn spec_compile(&self) -> Seq<u8> {
        spec_le_bytes(spec_to_unsigned(*self as int, 2), 2)
    }

    open spec fn spec_parse(bytes: Seq<u8>) -> Result<(i16, nat), BytecodeError> {
        match spec_parse_unsigned(bytes, 2) {
            Ok((x, len)) => Ok((spec_to_signed(x, 2) as i16, len)),
            Err(e) => Err(e),
        }
    }

    fn compile(&self) -> (out: Vec<u8>) {
        let x: i16 = *self;
        let bits: u16 = #[verifier::truncate] (x as u16);
        proof {
            lemma_radix_values();
            assert(bits == (if x < 0 {
                x + 0x1_0000
            } else {
                x as int
            })) by (bit_vector)
                requires
                    bits == x as u16,
            ;
        }
        bits.compile()
    }

    fn parse(bytes: &[u8]) -> (r: Result<(i16, usize), BytecodeError>) {
        match u16::parse(bytes) {
            Ok((bits, len)) => {
                let x: i16 = #[verifier::truncate] (bits as i16);
                proof {
                    lemma_radix_values();
                    assert(x == (if 2 * bits >= 0x1_0000 {
                        bits - 0x1_0000
                    } else {
                        bits as int
                    })) by (bit_vector)
                        requires
                            x == bits as i16,
                    ;
                    lemma_le_value_bound(bytes@, 2);
                }
                Ok((x, len))
            },
            Err(e) => Err(e),
        }
    }

    proof fn lemma_roundtrip(&self, rest: Seq<u8>) {
        lemma_radix_values();
        let bits = spec_to_unsigned(*self as int, 2);
        lemma_le_bytes_len(bits, 2);
        lemma_le_roundtrip(bits, 2, rest);
    }

    proof fn lemma_empty_is_incomplete() {
    }
}

impl Bytecodable for i32 {
    open spec fn spec_compile(&self) -> Seq<u8> {
        spec_le_bytes(spec_to_unsigned(*self as int, 4), 4)
    }

    open spec fn spec_parse(bytes: Seq<u8>) -> Result<(i32, nat), BytecodeError> {
        match spec_parse_unsigned(bytes, 4) {
            Ok((x, len)) => Ok((spec_to_signed(x, 4) as i32, len)),
            Err(e) => Err(e),
        }
    }

    fn compile(&self) -> (out: Vec<u8>) {
        let x: i32 = *self;
        let bits: u32 = #[verifier::truncate] (x as u32);
        proof {
            lemma_radix_values();
            assert(bits == (if x < 0 {
                x + 0x1_0000_0000
            } else {
                x as int
            })) by (bit_vector)
                requires
                    bits == x as u32,
            ;
        }
        bits.compile()
    }

    fn parse(bytes: &[u8]) -> (r: Result<(i32, usize), BytecodeError>) {
        match u32::parse(bytes) {
            Ok((bits, len)) => {
                let x: i32 = #[verifier::truncate] (bits as i32);
                proof {
                    lemma_radix_values();
                    assert(x == (if 2 * bits >= 0x1_0000_0000 {
                        bits - 0x1_0000_0000
                    } else {
                        bits as int
                    })) by (bit_vector)
                        requires
                            x == bits as i32,
                    ;
                    lemma_le_value_bound(bytes@, 4);
                }
                Ok((x, len))
            },
            Err(e) => Err(e),
        }
    }

    proof fn lemma_roundtrip(&self, rest: Seq<u8>) {
        lemma_radix_values();
        let bits = spec_to_unsigned(*self as int, 4);
        lemma_le_bytes_len(bits, 4);
        lemma_le_roundtrip(bits, 4, rest);
    }

    proof fn lemma_empty_is_incomplete() {
    }
}

impl Bytecodable for i64 {
    open spec fn spec_compile(&self) -> Seq<u8> {
        spec_le_bytes(spec_to_unsigned(*self as int, 8), 8)
    }

    open spec fn spec_parse(bytes: Seq<u8>) -> Result<(i64, nat), BytecodeError> {
        match spec_parse_unsigned(bytes, 8) {
            Ok((x, len)) => Ok((spec_to_signed(x, 8) as i64, len)),
            Err(e) => Err(e),
        }
    }

    fn compile(&self) -> (out: Vec<u8>) {
        let x: i64 = *self;
        let bits: u64 = #[verifier::truncate] (x as u64);
        proof {
            lemma_radix_values();
            assert(bits == (if x < 0 {
                x + 0x1_0000_0000_0000_0000
            } else {
                x as int
            })) by (bit_vector)
                requires
                    bits == x as u64,
            ;
        }
        bits.compile()
    }

    fn parse(bytes: &[u8]) -> (r: Result<(i64, usize), BytecodeError>) {
        match u64::parse(bytes) {
            Ok((bits, len)) => {
                let x: i64 = #[verifier::truncate] (bits as i64);
                proof {
                    lemma_radix_values();
                    assert(x == (if 2 * bits >= 0x1_0000_0000_0000_0000 {
                        bits - 0x1_0000_0000_0000_0000
                    } else {
                        bits as int
                    })) by (bit_vector)
                        requires
                            x == bits as i64,
                    ;
                    lemma_le_value_bound(bytes@, 8);
                }
                Ok((x, len))
            },
            Err(e) => Err(e),
        }
    }

    proof fn lemma_roundtrip(&self, rest: Seq<u8>) {
        lemma_radix_values();
        let bits = spec_to_unsigned(*self as int, 8);
        lemma_le_bytes_len(bits, 8);
        lemma_le_roundtrip(bits, 8, rest);
    }

    proof fn lemma_empty_is_incomplete() {
    }
}

impl Bytecodable for bool {
    open spec fn spec_compile(&self) -> Seq<u8> {
        spec_le_bytes(if *self { 1 } else { 0 }, 1)
    }

    open spec fn spec_parse(bytes: Seq<u8>) -> Result<(bool, nat), BytecodeError> {
        match spec_parse_unsigned(bytes, 1) {
            Ok((x, len)) => Ok((x != 0, len)),
            Err(e) => Err(e),
        }
    }

    fn compile(&self) -> (out: Vec<u8>) {
        let byte: u8 = if *self { 1 } else { 0 };
        byte.compile()
    }

    fn parse(bytes: &[u8]) -> (r: Result<(bool, usize), BytecodeError>) {
        match u8::parse(bytes) {
            Ok((byte, len)) => {
                proof {
                    lemma_radix_values();
                    lemma_le_value_bound(bytes@, 1);
                }
                Ok((byte != 0, len))
            },
            Err(e) => Err(e),
        }
    }

    proof fn lemma_roundtrip(&self, rest: Seq<u8>) {
        lemma_radix_values();
        let byte: nat = if *self { 1 } else { 0 };
        lemma_le_bytes_len(byte, 1);
        lemma_le_roundtrip(byte, 1, rest);
    }

    proof fn lemma_empty_is_incomplete() {
    }
}

} // verus!
