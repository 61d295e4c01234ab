//! Type descriptors: the shape of a sum type or a product type, and the
//! declarations they are built from.

use crate::error::BytecodeError;
use crate::instr::MAX_VARIANTS_ALLOWED;
use vstd::prelude::*;

verus! {

/// Reported for a sum type with more variants than a tag can name.
pub const TOO_MANY_VARIANTS: &'static str = "Currently at max 32768 enum variants are supported";

/// Reported for a sum type without any variant.
pub const NO_VARIANTS: &'static str = "Bytecode is not supported for enums without variants";

/// Reported for a product type without any field.
pub const UNIT_STRUCT: &'static str = "Bytecode is not supported for Unit type structs";

/// Reported for a declaration that is neither a sum nor a product.
pub const UNION: &'static str = "Bytecode is not supported for Unions";

/// A primitive type with a codec of its own.
#[derive(Clone, Copy, Debug, PartialEq, Eq)]
pub enum Primitive {
    U8,
    U16,
    U32,
    U64,
    I8,
    I16,
    I32,
    I64,
    Bool,
}

/// A reference to the codec of a field's type: a primitive, or the handle of
/// a composite type in a registry.
#[derive(Clone, Copy, Debug, PartialEq, Eq)]
pub enum CodecRef {
    Primitive(Primitive),
    Composite(usize),
}

/// One field of a product or of a variant.
#[derive(Debug)]
pub struct Field {
    pub name: Option<String>,
    pub ty: CodecRef,
}

/// The fields that a variant or a declared struct carries.
#[derive(Debug)]
pub enum Fields {
    Unit,
    Unnamed(Vec<CodecRef>),
    Named(Vec<Field>),
}

/// One variant of a sum type. Its position among the variants is its index.
#[derive(Debug)]
pub struct Variant {
    pub name: String,
    pub fields: Fields,
}

/// The shape of a composite type.
#[derive(Debug)]
pub enum Shape {
    /// Fields in declaration order, all always present.
    Product(Vec<Field>),
    /// Variants in declaration order.
    Sum(Vec<Variant>),
}

/// The description of one sum type or one product type.
#[derive(Debug)]
pub struct TypeDescriptor {
    pub name: String,
    pub shape: Shape,
}

/// What a declaration declares.
#[derive(Debug)]
pub enum Data {
    Enum(Vec<Variant>),
    Struct(Fields),
    Union,
}

/// A type declaration, from which a descriptor is built.
#[derive(Debug)]
pub struct DeriveInput {
    pub ident: String,
    pub data: Data,
}

/// The types of a list of fields, in order.
pub open spec fn spec_field_types(fields: Seq<Field>) -> Seq<CodecRef> {
    Seq::new(fields.len(), |i: int| fields[i].ty)
}

/// The fields that wrap a list of types without naming them.
pub open spec fn spec_unnamed_fields(types: Seq<CodecRef>) -> Seq<Field> {
    Seq::new(types.len(), |i: int| Field { name: None, ty: types[i] })
}

impl Fields {
    /// The types of the fields, in order; none for a unit.
    pub open spec fn spec_types(&self) -> Seq<CodecRef> {
        match self {
            Fields::Unit => Seq::empty(),
            Fields::Unnamed(types) => types@,
            Fields::Named(fields) => spec_field_types(fields@),
        }
    }
}

/// Builds the descriptor of a sum type from its variants.
///
/// Fails when there is no variant, or more than a tag can name.
pub fn derive_enum(name: String, variants: Vec<Variant>) -> (r: Result<
    TypeDescriptor,
    BytecodeError,
>)
    ensures
        match r {
            Ok(d) => 1 <= variants@.len() <= MAX_VARIANTS_ALLOWED && d.name == name && d.shape
                == Shape::Sum(variants),
            Err(e) => (variants@.len() == 0 && e == BytecodeError::Other(NO_VARIANTS)) || (
            variants@.len() > MAX_VARIANTS_ALLOWED && e == BytecodeError::Other(
                TOO_MANY_VARIANTS,
            )),
        },
{
    let max_possible_instructions: usize = variants.len();
    if max_possible_instructions > MAX_VARIANTS_ALLOWED {
        return Err(BytecodeError::Other(TOO_MANY_VARIANTS));
    }
    if max_possible_instructions == 0 {
        return Err(BytecodeError::Other(NO_VARIANTS));
    }
    Ok(TypeDescriptor { name, shape: Shape::Sum(variants) })
}

/// Builds the descriptor of a product type whose fields have no names.
///
/// Fails when there is no field.
pub fn derive_unnamed(name: String, types: Vec<CodecRef>) -> (r: Result<
    TypeDescriptor,
    BytecodeError,
>)
    ensures
        match r {
            Ok(d) => types@.len() >= 1 && d.name == name && (d.shape matches Shape::Product(fields)
                && fields@ == spec_unnamed_fields(types@)),
            Err(e) => types@.len() == 0 && e == BytecodeError::Other(UNIT_STRUCT),
        },
{
    if types.len() == 0 {
        return Err(BytecodeError::Other(UNIT_STRUCT));
    }
    let mut fields: Vec<Field> = Vec::new();
    let mut i: usize = 0;
    while i < types.len()
        invariant
            i <= types@.len(),
            fields@ == spec_unnamed_fields(types@.take(i as int)),
        decreases types@.len() - i,
    {
        fields.push(Field { name: None, ty: types[i] });
        i = i + 1;
        assert(fields@ =~= spec_unnamed_fields(types@.take(i as int)));
    }
    assert(types@.take(i as int) =~= types@);
    Ok(TypeDescriptor { name, shape: Shape::Product(fields) })
}

/// Builds the descriptor of a product type from its named fields.
///
/// Fails when there is no field.
pub fn derive_named(name: String, fields: Vec<Field>) -> (r: Result<TypeDescriptor, BytecodeError>)
    ensures
        match r {
            Ok(d) => fields@.len() >= 1 && d.name == name && (d.shape matches Shape::Product(built)
                && built@ == fields@),
            Err(e) => fields@.len() == 0 && e == BytecodeError::Other(UNIT_STRUCT),
        },
{
    if fields.len() == 0 {
        return Err(BytecodeError::Other(UNIT_STRUCT));
    }
    Ok(TypeDescriptor { name, shape: Shape::Product(fields) })
}

/// Whether a struct with these fields can be described: it has a field.
pub open spec fn spec_struct_ok(fields: Fields) -> bool {
    fields.spec_types().len() >= 1
}

/// Whether `built` holds the declared `fields` in order: the named fields as
/// given, the unnamed ones each wrapped without a name.
pub open spec fn spec_built_from(built: Seq<Field>, fields: Fields) -> bool {
    match fields {
        Fields::Unit => false,
        Fields::Unnamed(types) => built == spec_unnamed_fields(types@),
        Fields::Named(given) => built == given@,
    }
}

/// Builds the descriptor of a product type.
///
/// Fails for a unit struct and for any struct without fields: a value without
/// fields can only be a variant of a sum type.
pub fn derive_struct(name: String, fields: Fields) -> (r: Result<TypeDescriptor, BytecodeError>)
    ensures
        match r {
            Ok(d) => spec_struct_ok(fields) && d.name == name && (d.shape matches Shape::Product(
                built,
            ) && spec_built_from(built@, fields)),
            Err(e) => !spec_struct_ok(fields) && e == BytecodeError::Other(UNIT_STRUCT),
        },
{
    match fields {
        Fields::Unit => Err(BytecodeError::Other(UNIT_STRUCT)),
        Fields::Unnamed(types) => derive_unnamed(name, types),
        Fields::Named(named) => derive_named(name, named),
    }
}

/// A list of unnamed fields has the types it was made from.
pub proof fn lemma_unnamed_field_types(types: Seq<CodecRef>)
    ensures
        spec_field_types(spec_unnamed_fields(types)) == types,
{
    assert(spec_field_types(spec_unnamed_fields(types)) =~= types);
}

/// Whether a declaration can be described at all.
pub open spec fn spec_derive_ok(data: Data) -> bool {
    match data {
        Data::Enum(variants) => 1 <= variants@.len() <= MAX_VARIANTS_ALLOWED,
        Data::Struct(fields) => spec_struct_ok(fields),
        Data::Union => false,
    }
}

/// The error that building from a declaration gives, where it fails.
pub open spec fn spec_derive_error(data: Data) -> BytecodeError {
    match data {
        Data::Enum(variants) => if variants@.len() == 0 {
            BytecodeError::Other(NO_VARIANTS)
        } else {
            BytecodeError::Other(TOO_MANY_VARIANTS)
        },
        Data::Struct(_) => BytecodeError::Other(UNIT_STRUCT),
        Data::Union => BytecodeError::Other(UNION),
    }
}

impl TypeDescriptor {
    /// Whether `self` describes what `input` declares: the same name, and
    /// the same variants or the same fields in the same order.
    pub open spec fn spec_describes(&self, input: DeriveInput) -> bool {
        &&& self.name == input.ident
        &&& match input.data {
            Data::Enum(variants) => self.shape == Shape::Sum(variants),
            Data::Struct(fields) => self.shape matches Shape::Product(built) && spec_built_from(
                built@,
                fields,
            ),
            Data::Union => false,
        }
    }
}

/// Builds the descriptor of a declared type.
///
/// Succeeds exactly for a sum type with 1 to 32768 variants and for a product
/// type with at least one field.
pub fn derive(input: DeriveInput) -> (r: Result<TypeDescriptor, BytecodeError>)
    ensures
        match r {
            Ok(d) => spec_derive_ok(input.data) && d.spec_describes(input),
            Err(e) => !spec_derive_ok(input.data) && e == spec_derive_error(input.data),
        },
{
    let DeriveInput { ident, data } = input;
    match data {
        Data::Enum(variants) => derive_enum(ident, variants),
        Data::Struct(fields) => derive_struct(ident, fields),
        Data::Union => Err(BytecodeError::Other(UNION)),
    }
}

} // verus!
