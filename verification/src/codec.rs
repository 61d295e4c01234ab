//! The codec: values to bytes and bytes to values, by the descriptors of a
//! registry.

use crate::bytecodable::Bytecodable;
use crate::descriptor::{spec_field_types, CodecRef, Field, Fields, Primitive, Shape, Variant};
use crate::error::BytecodeError;
use crate::instr::{compile_instr, parse_instr, spec_compile_instr};
use crate::laws::lemma_first_error_stays;
use crate::registry::{ref_within, Registry};
use crate::value::{spec_views, Value, ValueView};
use crate::wire::{
    spec_all_conform, spec_compile, spec_compile_fields, spec_conforms, spec_conforms_primitive,
    spec_parse, spec_parse_enum, spec_parse_fields, spec_parse_primitive, spec_parse_struct,
    spec_parse_variant, spec_rank, MISMATCH, UNKNOWN_TYPE,
};
use vstd::prelude::*;
use vstd::slice::slice_subrange;

verus! {

/// A decoded value with its length, as a mathematical value and a plain
/// number.
pub open spec fn spec_parsed(r: Result<(Value, usize), BytecodeError>) -> Result<
    (ValueView, nat),
    BytecodeError,
> {
    match r {
        Ok((value, len)) => Ok((value@, len as nat)),
        Err(e) => Err(e),
    }
}

/// Decoded fields with the offset behind them, as mathematical values and a
/// plain number.
pub open spec fn spec_parsed_fields(r: Result<(Vec<Value>, usize), BytecodeError>) -> Result<
    (Seq<ValueView>, nat),
    BytecodeError,
> {
    match r {
        Ok((values, end)) => Ok((spec_views(values@), end as nat)),
        Err(e) => Err(e),
    }
}

/// Encodes a value of the primitive type `p`; fails when `value` is of
/// another type.
pub fn compile_primitive(p: Primitive, value: &Value) -> (r: Result<Vec<u8>, BytecodeError>)
    ensures
        match r {
            Ok(out) => spec_conforms_primitive(p, value@) && out@ == spec_compile(value@),
            Err(e) => !spec_conforms_primitive(p, value@) && e == BytecodeError::Other(MISMATCH),
        },
{
    match (p, value) {
        (Primitive::U8, Value::U8(x)) => Ok(x.compile()),
        (Primitive::U16, Value::U16(x)) => Ok(x.compile()),
        (Primitive::U32, Value::U32(x)) => Ok(x.compile()),
        (Primitive::U64, Value::U64(x)) => Ok(x.compile()),
        (Primitive::I8, Value::I8(x)) => Ok(x.compile()),
        (Primitive::I16, Value::I16(x)) => Ok(x.compile()),
        (Primitive::I32, Value::I32(x)) => Ok(x.compile()),
        (Primitive::I64, Value::I64(x)) => Ok(x.compile()),
        (Primitive::Bool, Value::Bool(x)) => Ok(x.compile()),
        _ => Err(BytecodeError::Other(MISMATCH)),
    }
}

/// Encodes `value` as a value of the type `ty`.
///
/// Succeeds exactly when `value` is a value of that type; the bytes are then
/// those of the wire format.
pub fn compile(registry: &Registry, ty: CodecRef, value: &Value) -> (r: Result<
    Vec<u8>,
    BytecodeError,
>)
    ensures
        match r {
            Ok(out) => spec_conforms(registry@, ty, value@) && out@ == spec_compile(value@),
            Err(e) => !spec_conforms(registry@, ty, value@) && e == BytecodeError::Other(
                MISMATCH,
            ),
        },
    decreases value, 0nat,
{
    match ty {
        CodecRef::Primitive(p) => compile_primitive(p, value),
        CodecRef::Composite(handle) => {
            let types = registry.types();
            if handle >= types.len() {
                return Err(BytecodeError::Other(MISMATCH));
            }
            match &types[handle].shape {
                Shape::Product(fields) => match value {
                    Value::Product(values) => compile_named(registry, fields, values, Vec::new()),
                    _ => Err(BytecodeError::Other(MISMATCH)),
                },
                Shape::Sum(variants) => match value {
                    Value::Sum(index, values) => {
                        if *index >= variants.len() {
                            return Err(BytecodeError::Other(MISMATCH));
                        }
                        compile_enum_variant(registry, *index, &variants[*index], values)
                    },
                    _ => Err(BytecodeError::Other(MISMATCH)),
                },
            }
        },
    }
}

/// Encodes variant number `i` of a sum type: its tag, then `values` as the
/// variant's fields in order.
///
/// Fails when `values` are not, one for one, values of the variant's fields.
pub fn compile_enum_variant(registry: &Registry, i: usize, v: &Variant, values: &Vec<Value>) -> (r:
    Result<Vec<u8>, BytecodeError>)
    ensures
        match r {
            Ok(out) => spec_all_conform(registry@, v.fields.spec_types(), spec_views(values@))
                && out@ == spec_compile_instr(i as nat) + spec_compile_fields(
                spec_views(values@),
                values@.len(),
            ),
            Err(e) => !spec_all_conform(registry@, v.fields.spec_types(), spec_views(values@))
                && e == BytecodeError::Other(MISMATCH),
        },
    decreases values, 2nat,
{
    let instr = compile_instr(i);
    match &v.fields {
        Fields::Unit => {
            if values.len() != 0 {
                return Err(BytecodeError::Other(MISMATCH));
            }
            assert(instr@ + spec_compile_fields(spec_views(values@), 0) =~= instr@);
            Ok(instr)
        },
        Fields::Unnamed(types) => compile_unnamed(registry, types, values, instr),
        Fields::Named(fields) => compile_named(registry, fields, values, instr),
    }
}

/// Appends to `out` the encodings of `values` as fields of the types
/// `types`, in order.
///
/// Fails when `values` are not, one for one, values of those types.
pub fn compile_unnamed(
    registry: &Registry,
    types: &Vec<CodecRef>,
    values: &Vec<Value>,
    out: Vec<u8>,
) -> (r: Result<Vec<u8>, BytecodeError>)
    ensures
        match r {
            Ok(done) => spec_all_conform(registry@, types@, spec_views(values@)) && done@ == out@
                + spec_compile_fields(spec_views(values@), values@.len()),
            Err(e) => !spec_all_conform(registry@, types@, spec_views(values@)) && e
                == BytecodeError::Other(MISMATCH),
        },
    decreases values, 1nat,
{
    if types.len() != values.len() {
        return Err(BytecodeError::Other(MISMATCH));
    }
    let ghost views = spec_views(values@);
    let mut done = out;
    let mut i: usize = 0;
    while i < values.len()
        invariant
            i <= values@.len(),
            types@.len() == values@.len(),
            views == spec_views(values@),
            done@ == out@ + spec_compile_fields(views, i as nat),
            forall|j: int| 0 <= j < i ==> spec_conforms(registry@, #[trigger] types@[j], views[j]),
        decreases values@.len() - i,
    {
        match compile(registry, types[i], &values[i]) {
            Ok(mut bytes) => {
                assert(done@ + bytes@ =~= out@ + spec_compile_fields(views, (i + 1) as nat));
                done.append(&mut bytes);
            },
            Err(e) => {
                return Err(e);
            },
        }
        i = i + 1;
    }
    Ok(done)
}

/// Appends to `out` the encodings of `values` as the fields `fields`, in
/// order.
///
/// Fails when `values` are not, one for one, values of the fields' types.
pub fn compile_named(registry: &Registry, fields: &Vec<Field>, values: &Vec<Value>, out: Vec<u8>)
    -> (r: Result<Vec<u8>, BytecodeError>)
    ensures
        match r {
            Ok(done) => spec_all_conform(
                registry@,
                spec_field_types(fields@),
                spec_views(values@),
            ) && done@ == out@ + spec_compile_fields(spec_views(values@), values@.len()),
            Err(e) => !spec_all_conform(
                registry@,
                spec_field_types(fields@),
                spec_views(values@),
            ) && e == BytecodeError::Other(MISMATCH),
        },
    decreases values, 1nat,
{
    if fields.len() != values.len() {
        return Err(BytecodeError::Other(MISMATCH));
    }
    let ghost views = spec_views(values@);
    let ghost types = spec_field_types(fields@);
    let mut done = out;
    let mut i: usize = 0;
    while i < values.len()
        invariant
            i <= values@.len(),
            fields@.len() == values@.len(),
            views == spec_views(values@),
            types == spec_field_types(fields@),
            done@ == out@ + spec_compile_fields(views, i as nat),
            forall|j: int| 0 <= j < i ==> spec_conforms(registry@, #[trigger] types[j], views[j]),
        decreases values@.len() - i,
    {
        match compile(registry, fields[i].ty, &values[i]) {
            Ok(mut bytes) => {
                assert(done@ + bytes@ =~= out@ + spec_compile_fields(views, (i + 1) as nat));
                done.append(&mut bytes);
            },
            Err(e) => {
                assert(types[i as int] == fields@[i as int].ty);
                return Err(e);
            },
        }
        i = i + 1;
    }
    Ok(done)
}

/// Decodes a value of the primitive type `p` from the front of `bytes`.
pub fn parse_primitive(p: Primitive, bytes: &[u8]) -> (r: Result<(Value, usize), BytecodeError>)
    ensures
        spec_parsed(r) == spec_parse_primitive(p, bytes@),
        r matches Ok((_, len)) ==> len <= bytes@.len(),
{
    match p {
        Primitive::U8 => match u8::parse(bytes) {
            Ok((x, len)) => Ok((Value::U8(x), len)),
            Err(e) => Err(e),
        },
        Primitive::U16 => match u16::parse(bytes) {
            Ok((x, len)) => Ok((Value::U16(x), len)),
            Err(e) => Err(e),
        },
        Primitive::U32 => match u32::parse(bytes) {
            Ok((x, len)) => Ok((Value::U32(x), len)),
            Err(e) => Err(e),
        },
        Primitive::U64 => match u64::parse(bytes) {
            Ok((x, len)) => Ok((Value::U64(x), len)),
            Err(e) => Err(e),
        },
        Primitive::I8 => match i8::parse(bytes) {
            Ok((x, len)) => Ok((Value::I8(x), len)),
            Err(e) => Err(e),
        },
        Primitive::I16 => match i16::parse(bytes) {
            Ok((x, len)) => Ok((Value::I16(x), len)),
            Err(e) => Err(e),
        },
        Primitive::I32 => match i32::parse(bytes) {
            Ok((x, len)) => Ok((Value::I32(x), len)),
            Err(e) => Err(e),
        },
        Primitive::I64 => match i64::parse(bytes) {
            Ok((x, len)) => Ok((Value::I64(x), len)),
            Err(e) => Err(e),
        },
        Primitive::Bool => match bool::parse(bytes) {
            Ok((x, len)) => Ok((Value::Bool(x), len)),
            Err(e) => Err(e),
        },
    }
}

/// Decodes a value of the type `ty` from the front of `bytes`, and says how
/// many bytes it took. Bytes behind the value are not looked at.
///
/// Fails with the error of the first part that cannot be read: the tag of a
/// sum, or a field.
pub fn parse(registry: &Registry, ty: CodecRef, bytes: &[u8]) -> (r: Result<
    (Value, usize),
    BytecodeError,
>)
    ensures
        spec_parsed(r) == spec_parse(registry@, ty, bytes@),
        r matches Ok((_, len)) ==> len <= bytes@.len(),
    decreases spec_rank(ty), 0nat,
{
    match ty {
        CodecRef::Primitive(p) => parse_primitive(p, bytes),
        CodecRef::Composite(handle) => {
            let types = registry.types();
            if handle >= types.len() {
                return Err(BytecodeError::Other(UNKNOWN_TYPE));
            }
            match &types[handle].shape {
                Shape::Product(fields) => parse_struct(registry, handle, fields, bytes),
                Shape::Sum(variants) => parse_enum(registry, handle, variants, bytes),
            }
        },
    }
}

/// Decodes a product with the given fields from the front of `bytes`: each
/// field in order, from where the one before it ended.
///
/// `bound` is the handle of the product's type.
pub fn parse_struct(registry: &Registry, bound: usize, fields: &Vec<Field>, bytes: &[u8]) -> (r:
    Result<(Value, usize), BytecodeError>)
    ensures
        spec_parsed(r) == spec_parse_struct(
            registry@,
            bound as nat,
            spec_field_types(fields@),
            bytes@,
        ),
        r matches Ok((_, len)) ==> len <= bytes@.len(),
    decreases bound, 5nat,
{
    match parse_named_values(registry, bound, fields, bytes, 0) {
        Ok((values, end)) => Ok((Value::Product(values), end)),
        Err(e) => Err(e),
    }
}

/// Decodes a sum with the given variants from the front of `bytes`: the tag
/// is read and checked first, then the fields of the variant it names.
///
/// `bound` is the handle of the sum's type.
pub fn parse_enum(registry: &Registry, bound: usize, variants: &Vec<Variant>, bytes: &[u8]) -> (r:
    Result<(Value, usize), BytecodeError>)
    ensures
        spec_parsed(r) == spec_parse_enum(registry@, bound as nat, variants@, bytes@),
        r matches Ok((_, len)) ==> len <= bytes@.len(),
    decreases bound, 5nat,
{
    match parse_instr(variants.len(), bytes) {
        Ok((index, start)) => {
            if start == 1 {
                parse_single_byte(registry, bound, index, &variants[index], bytes)
            } else {
                parse_two_byte(registry, bound, index, &variants[index], bytes)
            }
        },
        Err(e) => Err(e),
    }
}

/// Decodes the fields of a variant whose tag took one byte.
pub fn parse_single_byte(
    registry: &Registry,
    bound: usize,
    index: usize,
    variant: &Variant,
    bytes: &[u8],
) -> (r: Result<(Value, usize), BytecodeError>)
    requires
        1 <= bytes@.len(),
    ensures
        spec_parsed(r) == spec_parse_variant(
            registry@,
            bound as nat,
            index as nat,
            variant.fields.spec_types(),
            bytes@,
            1,
        ),
        r matches Ok((_, len)) ==> len <= bytes@.len(),
    decreases bound, 4nat,
{
    match &variant.fields {
        Fields::Unit => parse_unit_field(index, 1),
        Fields::Unnamed(types) => parse_unnamed_field(registry, bound, index, types, bytes, 1),
        Fields::Named(fields) => parse_named_field(registry, bound, index, fields, bytes, 1),
    }
}

/// Decodes the fields of a variant whose tag took two bytes.
pub fn parse_two_byte(
    registry: &Registry,
    bound: usize,
    index: usize,
    variant: &Variant,
    bytes: &[u8],
) -> (r: Result<(Value, usize), BytecodeError>)
    requires
        2 <= bytes@.len(),
    ensures
        spec_parsed(r) == spec_parse_variant(
            registry@,
            bound as nat,
            index as nat,
            variant.fields.spec_types(),
            bytes@,
            2,
        ),
        r matches Ok((_, len)) ==> len <= bytes@.len(),
    decreases bound, 4nat,
{
    match &variant.fields {
        Fields::Unit => parse_unit_field(index, 2),
        Fields::Unnamed(types) => parse_unnamed_field(registry, bound, index, types, bytes, 2),
        Fields::Named(fields) => parse_named_field(registry, bound, index, fields, bytes, 2),
    }
}

/// The value of a variant without fields: nothing is read behind the tag,
/// which took `init_size` bytes.
pub fn parse_unit_field(index: usize, init_size: usize) -> (r: Result<
    (Value, usize),
    BytecodeError,
>)
    ensures
        spec_parsed(r) == Ok::<(ValueView, nat), BytecodeError>(
            (ValueView::Sum(index as nat, Seq::empty()), init_size as nat),
        ),
        r matches Ok((_, len)) && len == init_size,
{
    let values: Vec<Value> = Vec::new();
    assert(spec_views(values@) =~= Seq::<ValueView>::empty());
    Ok((Value::Sum(index, values), init_size))
}

/// Decodes the unnamed fields of variant `index` from offset `init_size` of
/// `bytes`, where the variant's tag ends.
pub fn parse_unnamed_field(
    registry: &Registry,
    bound: usize,
    index: usize,
    types: &Vec<CodecRef>,
    bytes: &[u8],
    init_size: usize,
) -> (r: Result<(Value, usize), BytecodeError>)
    requires
        init_size <= bytes@.len(),
    ensures
        spec_parsed(r) == spec_parse_variant(
            registry@,
            bound as nat,
            index as nat,
            types@,
            bytes@,
            init_size as nat,
        ),
        r matches Ok((_, len)) ==> len <= bytes@.len(),
    decreases bound, 3nat,
{
    match parse_unnamed_values(registry, bound, types, bytes, init_size) {
        Ok((values, end)) => Ok((Value::Sum(index, values), end)),
        Err(e) => Err(e),
    }
}

/// Decodes the named fields of variant `index` from offset `init_size` of
/// `bytes`, where the variant's tag ends.
pub fn parse_named_field(
    registry: &Registry,
    bound: usize,
    index: usize,
    fields: &Vec<Field>,
    bytes: &[u8],
    init_size: usize,
) -> (r: Result<(Value, usize), BytecodeError>)
    requires
        init_size <= bytes@.len(),
    ensures
        spec_parsed(r) == spec_parse_variant(
            registry@,
            bound as nat,
            index as nat,
            spec_field_types(fields@),
            bytes@,
            init_size as nat,
        ),
        r matches Ok((_, len)) ==> len <= bytes@.len(),
    decreases bound, 3nat,
{
    match parse_named_values(registry, bound, fields, bytes, init_size) {
        Ok((values, end)) => Ok((Value::Sum(index, values), end)),
        Err(e) => Err(e),
    }
}

/// Decodes values of the types `types`, one after another, the first from
/// offset `init_size` of `bytes`; gives them with the offset behind the last.
///
/// Stops at the first value that cannot be read, with its error. A type that
/// does not stand before `bound` in the registry is not read.
pub fn parse_unnamed_values(
    registry: &Registry,
    bound: usize,
    types: &Vec<CodecRef>,
    bytes: &[u8],
    init_size: usize,
) -> (r: Result<(Vec<Value>, usize), BytecodeError>)
    requires
        init_size <= bytes@.len(),
    ensures
        spec_parsed_fields(r) == spec_parse_fields(
            registry@,
            bound as nat,
            types@,
            bytes@,
            init_size as nat,
            types@.len(),
        ),
        r matches Ok((_, end)) ==> init_size <= end <= bytes@.len(),
    decreases bound, 2nat,
{
    let mut values: Vec<Value> = Vec::new();
    let mut count: usize = init_size;
    let mut i: usize = 0;
    assert(spec_views(values@) =~= Seq::<ValueView>::empty());
    while i < types.len()
        invariant
            i <= types@.len(),
            init_size <= count <= bytes@.len(),
            spec_parse_fields(
                registry@,
                bound as nat,
                types@,
                bytes@,
                init_size as nat,
                i as nat,
            ) == Ok::<(Seq<ValueView>, nat), BytecodeError>((spec_views(values@), count as nat)),
        decreases types@.len() - i,
    {
        let ty = types[i];
        if !ref_within(ty, bound) {
            proof {
                lemma_first_error_stays(
                    registry@,
                    bound as nat,
                    types@,
                    bytes@,
                    init_size as nat,
                    (i + 1) as nat,
                    types@.len(),
                );
            }
            return Err(BytecodeError::Other(UNKNOWN_TYPE));
        }
        let rest = slice_subrange(bytes, count, bytes.len());
        match parse(registry, ty, rest) {
            Ok((value, size)) => {
                let ghost before = spec_views(values@);
                values.push(value);
                count = count + size;
                assert(spec_views(values@) =~= before.push(value@));
            },
            Err(e) => {
                proof {
                    lemma_first_error_stays(
                        registry@,
                        bound as nat,
                        types@,
                        bytes@,
                        init_size as nat,
                        (i + 1) as nat,
                        types@.len(),
                    );
                }
                return Err(e);
            },
        }
        i = i + 1;
    }
    Ok((values, count))
}

/// Decodes values of the fields `fields`, one after another, the first from
/// offset `init_size` of `bytes`; gives them with the offset behind the last.
///
/// Stops at the first value that cannot be read, with its error. A field
/// whose type does not stand before `bound` in the registry is not read.
pub fn parse_named_values(
    registry: &Registry,
    bound: usize,
    fields: &Vec<Field>,
    bytes: &[u8],
    init_size: usize,
) -> (r: Result<(Vec<Value>, usize), BytecodeError>)
    requires
        init_size <= bytes@.len(),
    ensures
        spec_parsed_fields(r) == spec_parse_fields(
            registry@,
            bound as nat,
            spec_field_types(fields@),
            bytes@,
            init_size as nat,
            fields@.len(),
        ),
        r matches Ok((_, end)) ==> init_size <= end <= bytes@.len(),
    decreases bound, 2nat,
{
    let ghost types = spec_field_types(fields@);
    let mut values: Vec<Value> = Vec::new();
    let mut count: usize = init_size;
    let mut i: usize = 0;
    assert(spec_views(values@) =~= Seq::<ValueView>::empty());
    while i < fields.len()
        invariant
            i <= fields@.len(),
            types == spec_field_types(fields@),
            init_size <= count <= bytes@.len(),
            spec_parse_fields(registry@, bound as nat, types, bytes@, init_size as nat, i as nat)
                == Ok::<(Seq<ValueView>, nat), BytecodeError>((spec_views(values@), count as nat)),
        decreases fields@.len() - i,
    {
        let ty = fields[i].ty;
        assert(types[i as int] == ty);
        if !ref_within(ty, bound) {
            proof {
                lemma_first_error_stays(
                    registry@,
                    bound as nat,
                    types,
                    bytes@,
                    init_size as nat,
                    (i + 1) as nat,
                    fields@.len(),
                );
            }
            return Err(BytecodeError::Other(UNKNOWN_TYPE));
        }
        let rest = slice_subrange(bytes, count, bytes.len());
        match parse(registry, ty, rest) {
            Ok((value, size)) => {
                let ghost before = spec_views(values@);
                values.push(value);
                count = count + size;
                assert(spec_views(values@) =~= before.push(value@));
            },
            Err(e) => {
                proof {
                    lemma_first_error_stays(
                        registry@,
                        bound as nat,
                        types,
                        bytes@,
                        init_size as nat,
                        (i + 1) as nat,
                        fields@.len(),
                    );
                }
                return Err(e);
            },
        }
        i = i + 1;
    }
    Ok((values, count))
}

} // verus!
