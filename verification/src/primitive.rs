//! Fixed-width little-endian codecs for integers and booleans.
//!
//! An integer of `width` bytes is written least significant byte first. A
//! signed integer is written as the unsigned number with the same bits.

use crate::error::BytecodeError;
use vstd::prelude::*;

verus! {

/// The number of values that `width` bytes can hold: 256 to the `width`.
pub open spec fn spec_radix(width: nat) -> nat
    decreases width,
{
    if width == 0 {
        1
    } else {
        256 * spec_radix((width - 1) as nat)
    }
}

/// The `width` low-order base-256 digits of `x`, least significant first.
pub open spec fn spec_le_bytes(x: nat, width: nat) -> Seq<u8>
    decreases width,
{
    if width == 0 {
        Seq::empty()
    } else {
        seq![(x % 256) as u8] + spec_le_bytes(x / 256, (width - 1) as nat)
    }
}

/// The number whose base-256 digits, least significant first, are the first
/// `width` bytes of `bytes`.
pub open spec fn spec_le_value(bytes: Seq<u8>, width: nat) -> nat
    decreases width,
{
    if width == 0 {
        0
    } else {
        bytes[0] as nat + 256 * spec_le_value(bytes.skip(1), (width - 1) as nat)
    }
}

/// Reading an unsigned integer of `width` bytes from the front of `bytes`.
pub open spec fn spec_parse_unsigned(bytes: Seq<u8>, width: nat) -> Result<
    (nat, nat),
    BytecodeError,
> {
    if bytes.len() < width {
        Err(BytecodeError::IncompleteInstruction)
    } else {
        Ok((spec_le_value(bytes, width), width))
    }
}

/// The unsigned number with the same `width` bytes as the signed `x`.
pub open spec fn spec_to_unsigned(x: int, width: nat) -> nat {
    if x < 0 {
        (x + spec_radix(width)) as nat
    } else {
        x as nat
    }
}

/// The signed number with the same `width` bytes as the unsigned `u`.
pub open spec fn spec_to_signed(u: nat, width: nat) -> int {
    if 2 * u >= spec_radix(width) {
        u - spec_radix(width)
    } else {
        u as int
    }
}

/// A decode result with its consumed length as a plain number.
pub open spec fn spec_consumed<T>(r: Result<(T, usize), BytecodeError>) -> Result<
    (T, nat),
    BytecodeError,
> {
    match r {
        Ok((value, len)) => Ok((value, len as nat)),
        Err(e) => Err(e),
    }
}

/// The radix of each width the codecs use.
pub proof fn lemma_radix_values()
    ensures
        spec_radix(0) == 1,
        spec_radix(1) == 0x100,
        spec_radix(2) == 0x1_0000,
        spec_radix(3) == 0x100_0000,
        spec_radix(4) == 0x1_0000_0000,
        spec_radix(5) == 0x100_0000_0000,
        spec_radix(6) == 0x1_0000_0000_0000,
        spec_radix(7) == 0x100_0000_0000_0000,
        spec_radix(8) == 0x1_0000_0000_0000_0000,
{
    reveal_with_fuel(spec_radix, 9);
}

/// An integer is written in exactly `width` bytes.
pub proof fn lemma_le_bytes_len(x: nat, width: nat)
    ensures
        spec_le_bytes(x, width).len() == width,
    decreases width,
{
    if width > 0 {
        lemma_le_bytes_len(x / 256, (width - 1) as nat);
    }
}

/// What `width` bytes stand for is below the radix of that width.
pub proof fn lemma_le_value_bound(bytes: Seq<u8>, width: nat)
    ensures
        spec_le_value(bytes, width) < spec_radix(width),
    decreases width,
{
    if width > 0 {
        lemma_le_value_bound(bytes.skip(1), (width - 1) as nat);
    }
}

/// Writing a number that fits in `width` bytes and reading it back gives the
/// number again, whatever follows the bytes.
pub proof fn lemma_le_roundtrip(x: nat, width: nat, rest: Seq<u8>)
    requires
        x < spec_radix(width),
    ensures
        spec_le_value(spec_le_bytes(x, width) + rest, width) == x,
    decreases width,
{
    if width > 0 {
        let tail = spec_le_bytes(x / 256, (width - 1) as nat);
        let all = spec_le_bytes(x, width) + rest;
        lemma_le_roundtrip(x / 256, (width - 1) as nat, rest);
        assert(all.skip(1) =~= tail + rest);
        assert(all[0] == (x % 256) as u8);
    }
}

/// What `width` bytes stand for depends on those bytes alone.
pub proof fn lemma_le_value_prefix(a: Seq<u8>, b: Seq<u8>, width: nat)
    requires
        width <= a.len(),
        width <= b.len(),
        a.take(width as int) == b.take(width as int),
    ensures
        spec_le_value(a, width) == spec_le_value(b, width),
    decreases width,
{
    if width > 0 {
        assert(a[0] == a.take(width as int)[0]);
        assert(b[0] == b.take(width as int)[0]);
        assert(a.skip(1).take(width - 1) =~= a.take(width as int).skip(1));
        assert(b.skip(1).take(width - 1) =~= b.take(width as int).skip(1));
        lemma_le_value_prefix(a.skip(1), b.skip(1), (width - 1) as nat);
    }
}

/// The `width <= 8` low-order bytes of `x`, least significant first.
pub fn le_bytes(x: u64, width: usize) -> (out: Vec<u8>)
    requires
        width <= 8,
    ensures
        out@ == spec_le_bytes(x as nat, width as nat),
{
    let mut out: Vec<u8> = Vec::new();
    let mut rest: u64 = x;
    let mut i: usize = 0;
    while i < width
        invariant
            i <= width,
            out@ + spec_le_bytes(rest as nat, (width - i) as nat) == spec_le_bytes(
                x as nat,
                width as nat,
            ),
        decreases width - i,
    {
        let ghost before = out@;
        let digit: u8 = (rest % 256) as u8;
        out.push(digit);
        proof {
            let tail = spec_le_bytes((rest / 256) as nat, (width - i - 1) as nat);
            assert(spec_le_bytes(rest as nat, (width - i) as nat) == seq![digit] + tail);
            assert(out@ + tail =~= before + (seq![digit] + tail));
        }
        rest = rest / 256;
        i = i + 1;
    }
    assert(spec_le_bytes(rest as nat, 0) =~= Seq::<u8>::empty());
    assert(out@ + Seq::<u8>::empty() =~= out@);
    out
}

/// The number that the first `width <= 8` bytes of `bytes` stand for.
pub fn le_value(bytes: &[u8], width: usize) -> (x: u64)
    requires
        width <= 8,
        width <= bytes@.len(),
    ensures
        x == spec_le_value(bytes@, width as nat),
{
    let mut x: u64 = 0;
    let mut i: usize = width;
    while i > 0
        invariant
            i <= width,
            width <= 8,
            width <= bytes@.len(),
            x == spec_le_value(bytes@.skip(i as int), (width - i) as nat),
        decreases i,
    {
        i = i - 1;
        proof {
            let here = bytes@.skip(i as int);
            assert(here.skip(1) =~= bytes@.skip(i + 1));
            assert(here[0] == bytes@[i as int]);
            lemma_le_value_bound(here.skip(1), (width - i - 1) as nat);
            lemma_radix_values();
            lemma_radix_monotonic((width - i - 1) as nat, 7);
        }
        x = x * 256 + bytes[i] as u64;
    }
    assert(bytes@.skip(0) =~= bytes@);
    x
}

/// A wider integer has at least the radix of a narrower one.
pub proof fn lemma_radix_monotonic(narrow: nat, wide: nat)
    requires
        narrow <= wide,
    ensures
        spec_radix(narrow) <= spec_radix(wide),
    decreases wide,
{
    if narrow < wide {
        lemma_radix_monotonic(narrow, (wide - 1) as nat);
    }
}

} // verus!
