//! The wire format, stated over mathematical values.
//!
//! A product is its fields one after another. A sum is the tag of its variant
//! followed by the variant's fields. Nothing marks where a value ends: a
//! decode reports how many bytes it took.

use crate::bytecodable::Bytecodable;
use crate::descriptor::{spec_field_types, CodecRef, Primitive, Shape, TypeDescriptor, Variant};
use crate::error::BytecodeError;
use crate::instr::{spec_compile_instr, spec_parse_instr, MAX_VARIANTS_ALLOWED};
use crate::value::ValueView;
use vstd::prelude::*;

verus! {

/// Reported when a type reference names no registered type.
pub const UNKNOWN_TYPE: &'static str = "reference to a type that is not registered";

/// Reported when a value handed to the encoder is not of the type named.
pub const MISMATCH: &'static str = "value does not have the shape of its type";

/// How deep into a registry a reference reaches: nothing for a primitive,
/// one past the handle for a composite.
pub open spec fn spec_rank(r: CodecRef) -> nat {
    match r {
        CodecRef::Primitive(_) => 0,
        CodecRef::Composite(handle) => (handle + 1) as nat,
    }
}

/// Whether every reference in `refs` reaches no deeper than `bound`.
pub open spec fn spec_refs_within(refs: Seq<CodecRef>, bound: nat) -> bool {
    forall|i: int| 0 <= i < refs.len() ==> spec_rank(#[trigger] refs[i]) <= bound
}

/// Whether every field type of every variant reaches no deeper than `bound`.
pub open spec fn spec_variants_within(variants: Seq<Variant>, bound: nat) -> bool {
    forall|i: int|
        0 <= i < variants.len() ==> spec_refs_within(
            (#[trigger] variants[i]).fields.spec_types(),
            bound,
        )
}

/// Whether a descriptor may stand at `handle`: a product has a field, a sum
/// has between 1 and 32768 variants, and every field's type is a primitive
/// or stands before `handle`.
pub open spec fn spec_descriptor_ok(d: TypeDescriptor, handle: nat) -> bool {
    match d.shape {
        Shape::Product(fields) => fields@.len() >= 1 && spec_refs_within(
            spec_field_types(fields@),
            handle,
        ),
        Shape::Sum(variants) => 1 <= variants@.len() <= MAX_VARIANTS_ALLOWED
            && spec_variants_within(variants@, handle),
    }
}

/// Whether a list of descriptors is well formed: each may stand where it
/// stands. References then only point backwards, so no shape contains itself.
pub open spec fn spec_wf(types: Seq<TypeDescriptor>) -> bool {
    forall|h: int| 0 <= h < types.len() ==> spec_descriptor_ok(#[trigger] types[h], h as nat)
}

/// Whether `v` is a value of the primitive type `p`.
pub open spec fn spec_conforms_primitive(p: Primitive, v: ValueView) -> bool {
    match p {
        Primitive::U8 => v is U8,
        Primitive::U16 => v is U16,
        Primitive::U32 => v is U32,
        Primitive::U64 => v is U64,
        Primitive::I8 => v is I8,
        Primitive::I16 => v is I16,
        Primitive::I32 => v is I32,
        Primitive::I64 => v is I64,
        Primitive::Bool => v is Bool,
    }
}

/// Whether `v` is a value of the type that `r` names in `types`.
pub open spec fn spec_conforms(types: Seq<TypeDescriptor>, r: CodecRef, v: ValueView) -> bool
    decreases v,
{
    match r {
        CodecRef::Primitive(p) => spec_conforms_primitive(p, v),
        CodecRef::Composite(handle) => handle < types.len() && match types[handle as int].shape {
            Shape::Product(fields) => v matches ValueView::Product(values) && spec_all_conform(
                types,
                spec_field_types(fields@),
                values,
            ),
            Shape::Sum(variants) => v matches ValueView::Sum(index, values) && index
                < variants@.len() && spec_all_conform(
                types,
                variants@[index as int].fields.spec_types(),
                values,
            ),
        },
    }
}

/// Whether `values` are, one for one, values of the types `refs`.
pub open spec fn spec_all_conform(
    types: Seq<TypeDescriptor>,
    refs: Seq<CodecRef>,
    values: Seq<ValueView>,
) -> bool
    decreases values,
{
    &&& refs.len() == values.len()
    &&& forall|i: int|
        0 <= i < values.len() ==> spec_conforms(types, #[trigger] refs[i], values[i])
}

/// The bytes of a primitive value.
pub open spec fn spec_compile_primitive(v: ValueView) -> Seq<u8> {
    match v {
        ValueView::U8(x) => x.spec_compile(),
        ValueView::U16(x) => x.spec_compile(),
        ValueView::U32(x) => x.spec_compile(),
        ValueView::U64(x) => x.spec_compile(),
        ValueView::I8(x) => x.spec_compile(),
        ValueView::I16(x) => x.spec_compile(),
        ValueView::I32(x) => x.spec_compile(),
        ValueView::I64(x) => x.spec_compile(),
        ValueView::Bool(x) => x.spec_compile(),
        _ => Seq::empty(),
    }
}

/// The bytes of a value: a primitive by its own codec, a product as its
/// fields in order, a sum as its tag and then its fields in order.
pub open spec fn spec_compile(v: ValueView) -> Seq<u8>
    decreases v, 0nat,
{
    match v {
        ValueView::Product(values) => spec_compile_fields(values, values.len()),
        ValueView::Sum(index, values) => spec_compile_instr(index) + spec_compile_fields(
            values,
            values.len(),
        ),
        _ => spec_compile_primitive(v),
    }
}

/// The bytes of the first `n` of `values`, one after another.
pub open spec fn spec_compile_fields(values: Seq<ValueView>, n: nat) -> Seq<u8>
    decreases values, n,
{
    if n == 0 || n > values.len() {
        Seq::empty()
    } else {
        spec_compile_fields(values, (n - 1) as nat) + spec_compile(values[n - 1])
    }
}

/// Reading a value of the primitive type `p` from the front of `bytes`.
pub open spec fn spec_parse_primitive(p: Primitive, bytes: Seq<u8>) -> Result<
    (ValueView, nat),
    BytecodeError,
> {
    match p {
        Primitive::U8 => match u8::spec_parse(bytes) {
            Ok((x, len)) => Ok((ValueView::U8(x), len)),
            Err(e) => Err(e),
        },
        Primitive::U16 => match u16::spec_parse(bytes) {
            Ok((x, len)) => Ok((ValueView::U16(x), len)),
            Err(e) => Err(e),
        },
        Primitive::U32 => match u32::spec_parse(bytes) {
            Ok((x, len)) => Ok((ValueView::U32(x), len)),
            Err(e) => Err(e),
        },
        Primitive::U64 => match u64::spec_parse(bytes) {
            Ok((x, len)) => Ok((ValueView::U64(x), len)),
            Err(e) => Err(e),
        },
        Primitive::I8 => match i8::spec_parse(bytes) {
            Ok((x, len)) => Ok((ValueView::I8(x), len)),
            Err(e) => Err(e),
        },
        Primitive::I16 => match i16::spec_parse(bytes) {
            Ok((x, len)) => Ok((ValueView::I16(x), len)),
            Err(e) => Err(e),
        },
        Primitive::I32 => match i32::spec_parse(bytes) {
            Ok((x, len)) => Ok((ValueView::I32(x), len)),
            Err(e) => Err(e),
        },
        Primitive::I64 => match i64::spec_parse(bytes) {
            Ok((x, len)) => Ok((ValueView::I64(x), len)),
            Err(e) => Err(e),
        },
        Primitive::Bool => match bool::spec_parse(bytes) {
            Ok((x, len)) => Ok((ValueView::Bool(x), len)),
            Err(e) => Err(e),
        },
    }
}

/// Reading a value of the type that `r` names from the front of `bytes`: the
/// value and the number of bytes it takes, or the first error met.
///
/// A sum is read tag first; the tag's error, if any, is the result. Fields
/// are read in order, each from where the one before it ended.
pub open spec fn spec_parse(types: Seq<TypeDescriptor>, r: CodecRef, bytes: Seq<u8>) -> Result<
    (ValueView, nat),
    BytecodeError,
>
    decreases spec_rank(r), 0nat, 0nat,
{
    match r {
        CodecRef::Primitive(p) => spec_parse_primitive(p, bytes),
        CodecRef::Composite(handle) => if handle >= types.len() {
            Err(BytecodeError::Other(UNKNOWN_TYPE))
        } else {
            match types[handle as int].shape {
                Shape::Product(fields) => spec_parse_struct(
                    types,
                    handle as nat,
                    spec_field_types(fields@),
                    bytes,
                ),
                Shape::Sum(variants) => spec_parse_enum(types, handle as nat, variants@, bytes),
            }
        },
    }
}

/// Reading a product with fields of types `refs` from the front of `bytes`.
pub open spec fn spec_parse_struct(
    types: Seq<TypeDescriptor>,
    bound: nat,
    refs: Seq<CodecRef>,
    bytes: Seq<u8>,
) -> Result<(ValueView, nat), BytecodeError>
    decreases bound, 0nat, refs.len() + 1,
{
    match spec_parse_fields(types, bound, refs, bytes, 0, refs.len()) {
        Ok((values, end)) => Ok((ValueView::Product(values), end)),
        Err(e) => Err(e),
    }
}

/// Reading a sum with the given variants from the front of `bytes`: the tag
/// first, then the fields of the variant that the tag names.
pub open spec fn spec_parse_enum(
    types: Seq<TypeDescriptor>,
    bound: nat,
    variants: Seq<Variant>,
    bytes: Seq<u8>,
) -> Result<(ValueView, nat), BytecodeError>
    decreases bound, 1nat, 0nat,
{
    match spec_parse_instr(variants.len(), bytes) {
        Ok((index, start)) => spec_parse_variant(
            types,
            bound,
            index,
            variants[index as int].fields.spec_types(),
            bytes,
            start,
        ),
        Err(e) => Err(e),
    }
}

/// Reading the fields of variant `index`, of types `refs`, from offset
/// `start` of `bytes`, where its tag ends.
pub open spec fn spec_parse_variant(
    types: Seq<TypeDescriptor>,
    bound: nat,
    index: nat,
    refs: Seq<CodecRef>,
    bytes: Seq<u8>,
    start: nat,
) -> Result<(ValueView, nat), BytecodeError>
    decreases bound, 0nat, refs.len() + 1,
{
    match spec_parse_fields(types, bound, refs, bytes, start, refs.len()) {
        Ok((values, end)) => Ok((ValueView::Sum(index, values), end)),
        Err(e) => Err(e),
    }
}

/// Reading the first `n` fields of types `refs` from `bytes`, the first of
/// them at offset `start`: the values and the offset behind the last one, or
/// the error of the first field that fails.
///
/// `bound` is the handle of the type whose fields these are; a field whose
/// type does not stand before it is not read.
pub open spec fn spec_parse_fields(
    types: Seq<TypeDescriptor>,
    bound: nat,
    refs: Seq<CodecRef>,
    bytes: Seq<u8>,
    start: nat,
    n: nat,
) -> Result<(Seq<ValueView>, nat), BytecodeError>
    decreases bound, 0nat, n,
{
    if n == 0 {
        Ok((Seq::empty(), start))
    } else {
        match spec_parse_fields(types, bound, refs, bytes, start, (n - 1) as nat) {
            Ok((values, offset)) => if spec_rank(refs[n - 1]) > bound {
                Err(BytecodeError::Other(UNKNOWN_TYPE))
            } else {
                match spec_parse(types, refs[n - 1], bytes.skip(offset as int)) {
                    Ok((value, len)) => Ok((values.push(value), offset + len)),
                    Err(e) => Err(e),
                }
            },
            Err(e) => Err(e),
        }
    }
}

} // verus!
