//! What holds of the wire format for every well-formed list of descriptors.

use crate::bytecodable::Bytecodable;
use crate::descriptor::{spec_field_types, CodecRef, Primitive, Shape, TypeDescriptor};
use crate::error::BytecodeError;
use crate::instr::{lemma_instr_roundtrip, spec_compile_instr, spec_parse_instr};
use crate::primitive::lemma_le_value_prefix;
use crate::value::ValueView;
use crate::wire::{
    spec_all_conform, spec_compile, spec_compile_fields, spec_compile_primitive, spec_conforms,
    spec_conforms_primitive, spec_parse, spec_parse_fields, spec_parse_primitive, spec_rank,
    spec_refs_within, spec_wf,
};
use vstd::prelude::*;

verus! {

/// A primitive value's bytes, followed by anything, read back as the value
/// and take exactly the bytes written.
pub proof fn lemma_primitive_roundtrip(p: Primitive, v: ValueView, rest: Seq<u8>)
    requires
        spec_conforms_primitive(p, v),
    ensures
        spec_parse_primitive(p, spec_compile_primitive(v) + rest) == Ok::<
            (ValueView, nat),
            BytecodeError,
        >((v, spec_compile_primitive(v).len())),
{
    match v {
        ValueView::U8(x) => x.lemma_roundtrip(rest),
        ValueView::U16(x) => x.lemma_roundtrip(rest),
        ValueView::U32(x) => x.lemma_roundtrip(rest),
        ValueView::U64(x) => x.lemma_roundtrip(rest),
        ValueView::I8(x) => x.lemma_roundtrip(rest),
        ValueView::I16(x) => x.lemma_roundtrip(rest),
        ValueView::I32(x) => x.lemma_roundtrip(rest),
        ValueView::I64(x) => x.lemma_roundtrip(rest),
        ValueView::Bool(x) => x.lemma_roundtrip(rest),
        _ => {},
    }
}

/// Decoding the encoding of a value gives the value back and consumes all
/// of the encoding.
pub proof fn lemma_roundtrip_exact(types: Seq<TypeDescriptor>, r: CodecRef, v: ValueView)
    requires
        spec_wf(types),
        spec_conforms(types, r, v),
    ensures
        spec_parse(types, r, spec_compile(v)) == Ok::<(ValueView, nat), BytecodeError>(
            (v, spec_compile(v).len()),
        ),
{
    lemma_roundtrip(types, r, v, Seq::empty());
    assert(spec_compile(v) + Seq::<u8>::empty() =~= spec_compile(v));
}

/// Decoding what was encoded gives the value back and consumes exactly the
/// encoding, whatever bytes follow it: the suffix changes neither the value
/// nor the length.
pub proof fn lemma_roundtrip(types: Seq<TypeDescriptor>, r: CodecRef, v: ValueView, rest: Seq<u8>)
    requires
        spec_wf(types),
        spec_conforms(types, r, v),
    ensures
        spec_parse(types, r, spec_compile(v) + rest) == Ok::<(ValueView, nat), BytecodeError>(
            (v, spec_compile(v).len()),
        ),
    decreases v, 0nat,
{
    let bytes = spec_compile(v) + rest;
    match r {
        CodecRef::Primitive(p) => {
            lemma_primitive_roundtrip(p, v, rest);
        },
        CodecRef::Composite(handle) => {
            match types[handle as int].shape {
                Shape::Product(fields) => {
                    let values = v->Product_0;
                    let refs = spec_field_types(fields@);
                    let body = spec_compile_fields(values, values.len());
                    assert(bytes.subrange(0, body.len() as int) =~= body);
                    lemma_fields_roundtrip(
                        types,
                        handle as nat,
                        refs,
                        values,
                        bytes,
                        0,
                        values.len(),
                    );
                    assert(values.take(values.len() as int) =~= values);
                },
                Shape::Sum(variants) => {
                    let index = v->Sum_0;
                    let values = v->Sum_1;
                    let refs = variants@[index as int].fields.spec_types();
                    let tag = spec_compile_instr(index);
                    let body = spec_compile_fields(values, values.len());
                    assert(bytes =~= tag + (body + rest));
                    lemma_instr_roundtrip(variants@.len(), index, body + rest);
                    assert(bytes.subrange(tag.len() as int, (tag.len() + body.len()) as int) =~= body);
                    lemma_fields_roundtrip(
                        types,
                        handle as nat,
                        refs,
                        values,
                        bytes,
                        tag.len(),
                        values.len(),
                    );
                    assert(values.take(values.len() as int) =~= values);
                },
            }
        },
    }
}

/// Where the encodings of the first `n` of `values` stand in `bytes` from
/// offset `start` on, reading `n` fields from there gives those values back
/// and ends right behind them.
pub proof fn lemma_fields_roundtrip(
    types: Seq<TypeDescriptor>,
    bound: nat,
    refs: Seq<CodecRef>,
    values: Seq<ValueView>,
    bytes: Seq<u8>,
    start: nat,
    n: nat,
)
    requires
        spec_wf(types),
        spec_all_conform(types, refs, values),
        spec_refs_within(refs, bound),
        n <= values.len(),
        start + spec_compile_fields(values, n).len() <= bytes.len(),
        bytes.subrange(
            start as int,
            (start + spec_compile_fields(values, n).len()) as int,
        )
            == spec_compile_fields(values, n),
    ensures
        spec_parse_fields(types, bound, refs, bytes, start, n) == Ok::<
            (Seq<ValueView>, nat),
            BytecodeError,
        >((values.take(n as int), start + spec_compile_fields(values, n).len())),
    decreases values, n,
{
    if n == 0 {
        assert(values.take(0) =~= Seq::<ValueView>::empty());
    } else {
        let before = spec_compile_fields(values, (n - 1) as nat);
        let last = spec_compile(values[n - 1]);
        let all = spec_compile_fields(values, n);
        assert(all == before + last);
        let offset = start + before.len();
        assert(bytes.subrange(start as int, offset as int) =~= all.subrange(
            0,
            before.len() as int,
        ));
        assert(all.subrange(0, before.len() as int) =~= before);
        lemma_fields_roundtrip(types, bound, refs, values, bytes, start, (n - 1) as nat);
        let rest = bytes.skip((offset + last.len()) as int);
        assert(bytes.skip(offset as int) =~= last + rest) by {
            assert(bytes.subrange(offset as int, (offset + last.len()) as int) =~= all.subrange(
                before.len() as int,
                all.len() as int,
            ));
            assert(all.subrange(before.len() as int, all.len() as int) =~= last);
        }
        lemma_roundtrip(types, refs[n - 1], values[n - 1], rest);
        assert(values.take(n - 1).push(values[n - 1]) =~= values.take(n as int));
    }
}

/// Nothing can be decoded from an empty buffer: the decode of any type
/// reports it as incomplete.
pub proof fn lemma_empty_is_incomplete(types: Seq<TypeDescriptor>, r: CodecRef)
    requires
        spec_wf(types),
        spec_rank(r) <= types.len(),
    ensures
        spec_parse(types, r, Seq::<u8>::empty()) == Err::<(ValueView, nat), BytecodeError>(
            BytecodeError::IncompleteInstruction,
        ),
    decreases spec_rank(r), 0nat,
{
    match r {
        CodecRef::Primitive(p) => {
            u8::lemma_empty_is_incomplete();
            u16::lemma_empty_is_incomplete();
            u32::lemma_empty_is_incomplete();
            u64::lemma_empty_is_incomplete();
            i8::lemma_empty_is_incomplete();
            i16::lemma_empty_is_incomplete();
            i32::lemma_empty_is_incomplete();
            i64::lemma_empty_is_incomplete();
            bool::lemma_empty_is_incomplete();
        },
        CodecRef::Composite(handle) => {
            match types[handle as int].shape {
                Shape::Product(fields) => {
                    lemma_empty_fields_are_incomplete(
                        types,
                        handle as nat,
                        spec_field_types(fields@),
                        fields@.len(),
                    );
                },
                Shape::Sum(variants) => {},
            }
        },
    }
}

/// Reading one field or more from an empty buffer reports it as incomplete.
pub proof fn lemma_empty_fields_are_incomplete(
    types: Seq<TypeDescriptor>,
    bound: nat,
    refs: Seq<CodecRef>,
    n: nat,
)
    requires
        spec_wf(types),
        bound < types.len(),
        spec_refs_within(refs, bound),
        1 <= n <= refs.len(),
    ensures
        spec_parse_fields(types, bound, refs, Seq::<u8>::empty(), 0, n) == Err::<
            (Seq<ValueView>, nat),
            BytecodeError,
        >(BytecodeError::IncompleteInstruction),
    decreases bound, n,
{
    let nothing = Seq::<u8>::empty();
    if n == 1 {
        assert(spec_parse_fields(types, bound, refs, nothing, 0, 0) == Ok::<
            (Seq<ValueView>, nat),
            BytecodeError,
        >((Seq::empty(), 0)));
        assert(nothing.skip(0) =~= nothing);
        lemma_empty_is_incomplete(types, refs[0]);
    } else {
        lemma_empty_fields_are_incomplete(types, bound, refs, (n - 1) as nat);
    }
}

/// A primitive that is read is of the type asked for and takes between one
/// byte and the whole buffer; reading one fails only as incomplete.
pub proof fn lemma_parse_primitive_sound(p: Primitive, bytes: Seq<u8>)
    ensures
        match spec_parse_primitive(p, bytes) {
            Ok((v, len)) => 1 <= len <= bytes.len() && spec_conforms_primitive(p, v),
            Err(e) => e == BytecodeError::IncompleteInstruction,
        },
{
    match p {
        Primitive::U8 => {},
        Primitive::U16 => {},
        Primitive::U32 => {},
        Primitive::U64 => {},
        Primitive::I8 => {},
        Primitive::I16 => {},
        Primitive::I32 => {},
        Primitive::I64 => {},
        Primitive::Bool => {},
    }
}

/// Whatever a decode gives back is a value of the type asked for, takes at
/// least one byte and no more than the buffer holds; and a decode fails only
/// as incomplete or as invalid.
pub proof fn lemma_parse_sound(types: Seq<TypeDescriptor>, r: CodecRef, bytes: Seq<u8>)
    requires
        spec_wf(types),
        spec_rank(r) <= types.len(),
    ensures
        match spec_parse(types, r, bytes) {
            Ok((v, len)) => 1 <= len <= bytes.len() && spec_conforms(types, r, v),
            Err(e) => e == BytecodeError::IncompleteInstruction || e
                == BytecodeError::InvalidInstruction,
        },
    decreases spec_rank(r), 0nat,
{
    match r {
        CodecRef::Primitive(p) => {
            lemma_parse_primitive_sound(p, bytes);
        },
        CodecRef::Composite(handle) => {
            match types[handle as int].shape {
                Shape::Product(fields) => {
                    let refs = spec_field_types(fields@);
                    lemma_parse_fields_sound(types, handle as nat, refs, bytes, 0, refs.len());
                    assert(refs.take(refs.len() as int) =~= refs);
                },
                Shape::Sum(variants) => {
                    match spec_parse_instr(variants@.len(), bytes) {
                        Ok((index, start)) => {
                            let refs = variants@[index as int].fields.spec_types();
                            lemma_parse_fields_sound(
                                types,
                                handle as nat,
                                refs,
                                bytes,
                                start,
                                refs.len(),
                            );
                            assert(refs.take(refs.len() as int) =~= refs);
                        },
                        Err(e) => {},
                    }
                },
            }
        },
    }
}

/// Fields that are read are values of their types, each takes at least one
/// byte, and together they end inside the buffer; and reading fields fails
/// only as incomplete or as invalid.
pub proof fn lemma_parse_fields_sound(
    types: Seq<TypeDescriptor>,
    bound: nat,
    refs: Seq<CodecRef>,
    bytes: Seq<u8>,
    start: nat,
    n: nat,
)
    requires
        spec_wf(types),
        bound < types.len(),
        spec_refs_within(refs, bound),
        n <= refs.len(),
        start <= bytes.len(),
    ensures
        match spec_parse_fields(types, bound, refs, bytes, start, n) {
            Ok((values, end)) => {
                &&& values.len() == n
                &&& start + n <= end <= bytes.len()
                &&& spec_all_conform(types, refs.take(n as int), values)
            },
            Err(e) => e == BytecodeError::IncompleteInstruction || e
                == BytecodeError::InvalidInstruction,
        },
    decreases bound, n,
{
    if n > 0 {
        lemma_parse_fields_sound(types, bound, refs, bytes, start, (n - 1) as nat);
        match spec_parse_fields(types, bound, refs, bytes, start, (n - 1) as nat) {
            Ok((values, offset)) => {
                lemma_parse_sound(types, refs[n - 1], bytes.skip(offset as int));
                match spec_parse(types, refs[n - 1], bytes.skip(offset as int)) {
                    Ok((value, len)) => {
                        let all = values.push(value);
                        let upto = refs.take(n as int);
                        assert forall|i: int| 0 <= i < all.len() implies spec_conforms(
                            types,
                            #[trigger] upto[i],
                            all[i],
                        ) by {
                            if i < n - 1 {
                                assert(refs.take(n - 1)[i] == upto[i]);
                            }
                        }
                    },
                    Err(e) => {},
                }
            },
            Err(e) => {},
        }
    }
}

/// The first field that fails decides: once reading `k` fields has failed,
/// reading more of them fails with the same error.
pub proof fn lemma_first_error_stays(
    types: Seq<TypeDescriptor>,
    bound: nat,
    refs: Seq<CodecRef>,
    bytes: Seq<u8>,
    start: nat,
    k: nat,
    n: nat,
)
    requires
        k <= n,
        spec_parse_fields(types, bound, refs, bytes, start, k) is Err,
    ensures
        spec_parse_fields(types, bound, refs, bytes, start, n) == spec_parse_fields(
            types,
            bound,
            refs,
            bytes,
            start,
            k,
        ),
    decreases n,
{
    if k < n {
        lemma_first_error_stays(types, bound, refs, bytes, start, k, (n - 1) as nat);
    }
}

/// A primitive decode looks only at the bytes it consumes.
pub proof fn lemma_parse_primitive_ignores_rest(p: Primitive, bytes: Seq<u8>, other: Seq<u8>)
    requires
        spec_parse_primitive(p, bytes) matches Ok((_, len)) && len <= other.len() && other.take(
            len as int,
        ) == bytes.take(len as int),
    ensures
        spec_parse_primitive(p, other) == spec_parse_primitive(p, bytes),
{
    lemma_parse_primitive_sound(p, bytes);
    match p {
        Primitive::U8 => lemma_le_value_prefix(other, bytes, 1),
        Primitive::U16 => lemma_le_value_prefix(other, bytes, 2),
        Primitive::U32 => lemma_le_value_prefix(other, bytes, 4),
        Primitive::U64 => lemma_le_value_prefix(other, bytes, 8),
        Primitive::I8 => lemma_le_value_prefix(other, bytes, 1),
        Primitive::I16 => lemma_le_value_prefix(other, bytes, 2),
        Primitive::I32 => lemma_le_value_prefix(other, bytes, 4),
        Primitive::I64 => lemma_le_value_prefix(other, bytes, 8),
        Primitive::Bool => lemma_le_value_prefix(other, bytes, 1),
    }
}

/// A decode looks only at the bytes it consumes: a buffer that begins with
/// the same bytes decodes to the same value and the same length, whatever
/// follows them.
pub proof fn lemma_parse_ignores_rest(
    types: Seq<TypeDescriptor>,
    r: CodecRef,
    bytes: Seq<u8>,
    other: Seq<u8>,
)
    requires
        spec_wf(types),
        spec_rank(r) <= types.len(),
        spec_parse(types, r, bytes) matches Ok((_, len)) && len <= other.len() && other.take(
            len as int,
        ) == bytes.take(len as int),
    ensures
        spec_parse(types, r, other) == spec_parse(types, r, bytes),
    decreases spec_rank(r), 0nat,
{
    lemma_parse_sound(types, r, bytes);
    match r {
        CodecRef::Primitive(p) => {
            lemma_parse_primitive_ignores_rest(p, bytes, other);
        },
        CodecRef::Composite(handle) => {
            match types[handle as int].shape {
                Shape::Product(fields) => {
                    let refs = spec_field_types(fields@);
                    lemma_parse_fields_ignore_rest(
                        types,
                        handle as nat,
                        refs,
                        bytes,
                        other,
                        0,
                        refs.len(),
                    );
                },
                Shape::Sum(variants) => {
                    let (index, start) = spec_parse_instr(variants@.len(), bytes)->Ok_0;
                    let refs = variants@[index as int].fields.spec_types();
                    lemma_parse_fields_sound(types, handle as nat, refs, bytes, start, refs.len());
                    let len = spec_parse(types, r, bytes)->Ok_0.1;
                    assert(other[0] == other.take(len as int)[0]);
                    assert(bytes[0] == bytes.take(len as int)[0]);
                    if start == 2 {
                        assert(other[1] == other.take(len as int)[1]);
                        assert(bytes[1] == bytes.take(len as int)[1]);
                    }
                    assert(spec_parse_instr(variants@.len(), other) == spec_parse_instr(
                        variants@.len(),
                        bytes,
                    ));
                    lemma_parse_fields_ignore_rest(
                        types,
                        handle as nat,
                        refs,
                        bytes,
                        other,
                        start,
                        refs.len(),
                    );
                },
            }
        },
    }
}

/// Reading fields looks only at the bytes up to the end of the last field.
pub proof fn lemma_parse_fields_ignore_rest(
    types: Seq<TypeDescriptor>,
    bound: nat,
    refs: Seq<CodecRef>,
    bytes: Seq<u8>,
    other: Seq<u8>,
    start: nat,
    n: nat,
)
    requires
        spec_wf(types),
        bound < types.len(),
        spec_refs_within(refs, bound),
        n <= refs.len(),
        start <= bytes.len(),
        spec_parse_fields(types, bound, refs, bytes, start, n) matches Ok((_, end)) && end
            <= other.len() && other.take(end as int) == bytes.take(end as int),
    ensures
        spec_parse_fields(types, bound, refs, other, start, n) == spec_parse_fields(
            types,
            bound,
            refs,
            bytes,
            start,
            n,
        ),
    decreases bound, n,
{
    if n > 0 {
        let end = spec_parse_fields(types, bound, refs, bytes, start, n)->Ok_0.1;
        let (values, offset) = spec_parse_fields(
            types,
            bound,
            refs,
            bytes,
            start,
            (n - 1) as nat,
        )->Ok_0;
        lemma_parse_fields_sound(types, bound, refs, bytes, start, (n - 1) as nat);
        let here = bytes.skip(offset as int);
        let there = other.skip(offset as int);
        lemma_parse_sound(types, refs[n - 1], here);
        let len = spec_parse(types, refs[n - 1], here)->Ok_0.1;
        assert(end == offset + len);
        assert(other.take(offset as int) =~= other.take(end as int).take(offset as int));
        assert(bytes.take(offset as int) =~= bytes.take(end as int).take(offset as int));
        lemma_parse_fields_ignore_rest(types, bound, refs, bytes, other, start, (n - 1) as nat);
        assert(there.take(len as int) =~= other.take(end as int).skip(offset as int));
        assert(here.take(len as int) =~= bytes.take(end as int).skip(offset as int));
        lemma_parse_ignores_rest(types, refs[n - 1], here, there);
    }
}

} // verus!
