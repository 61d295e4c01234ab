//! A compact binary codec for sum types and product types.
//!
//! A type's shape is described by a [`TypeDescriptor`], built once from a
//! declaration and kept in a [`Registry`]. A [`Value`] of a registered type is
//! turned into bytes by [`compile`] and read back by [`parse`], which also
//! says how many bytes it consumed. The primitive types carry their codecs
//! through [`Bytecodable`].

pub mod bytecodable;
pub mod codec;
pub mod descriptor;
pub mod error;
pub mod instr;
pub mod laws;
pub mod primitive;
pub mod registry;
pub mod value;
pub mod wire;

pub use bytecodable::Bytecodable;
pub use codec::{
    compile, compile_enum_variant, compile_named, compile_primitive, compile_unnamed, parse,
    parse_enum, parse_named_field, parse_named_values, parse_primitive, parse_single_byte,
    parse_struct, parse_two_byte, parse_unit_field, parse_unnamed_field, parse_unnamed_values,
};
pub use descriptor::{
    derive_enum, derive_named, derive_struct, derive_unnamed, CodecRef, Data, DeriveInput, Field,
    Fields, Primitive, Shape, TypeDescriptor, Variant,
};
pub use error::BytecodeError;
pub use instr::{compile_instr, parse_instr, split_into_instr_bytes, MAX_VARIANTS_ALLOWED};
pub use registry::Registry;
pub use value::Value;
