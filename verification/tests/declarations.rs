use std::collections::HashMap;

use bytecode::descriptor::{TOO_MANY_VARIANTS, UNION, UNIT_STRUCT};
use bytecode::wire::UNKNOWN_TYPE;
use bytecode::{
    compile, parse, BytecodeError, CodecRef, Data, DeriveInput, Field, Fields, Primitive,
    Registry, Value, Variant,
};

// Declarations written as Rust source, read by `syn`, described to the
// registry under their names.
struct Declared {
    registry: Registry,
    handles: HashMap<String, usize>,
}

fn type_named(declared: &Declared, name: &str) -> Option<CodecRef> {
    let primitive = match name {
        "u8" => Primitive::U8,
        "u16" => Primitive::U16,
        "u32" => Primitive::U32,
        "u64" => Primitive::U64,
        "i8" => Primitive::I8,
        "i16" => Primitive::I16,
        "i32" => Primitive::I32,
        "i64" => Primitive::I64,
        "bool" => Primitive::Bool,
        _ => return declared.handles.get(name).map(|handle| CodecRef::Composite(*handle)),
    };
    Some(CodecRef::Primitive(primitive))
}

fn codec_of(declared: &Declared, ty: &syn::Type) -> Result<CodecRef, BytecodeError> {
    let name = match ty {
        syn::Type::Path(path) => path.path.get_ident(),
        _ => None,
    };
    name.and_then(|ident| type_named(declared, &ident.to_string()))
        .ok_or(BytecodeError::Other(UNKNOWN_TYPE))
}

fn fields_of(declared: &Declared, fields: &syn::Fields) -> Result<Fields, BytecodeError> {
    match fields {
        syn::Fields::Unit => Ok(Fields::Unit),
        syn::Fields::Unnamed(unnamed) => {
            let mut types = Vec::new();
            for f in unnamed.unnamed.iter() {
                types.push(codec_of(declared, &f.ty)?);
            }
            Ok(Fields::Unnamed(types))
        }
        syn::Fields::Named(named) => {
            let mut list = Vec::new();
            for f in named.named.iter() {
                list.push(Field {
                    name: f.ident.as_ref().map(|ident| ident.to_string()),
                    ty: codec_of(declared, &f.ty)?,
                });
            }
            Ok(Fields::Named(list))
        }
    }
}

fn declare(declared: &mut Declared, source: &str) -> Result<CodecRef, BytecodeError> {
    let input: syn::DeriveInput = syn::parse_str(source).unwrap();
    let data = match &input.data {
        syn::Data::Enum(input_enum) => {
            let mut variants = Vec::new();
            for v in input_enum.variants.iter() {
                variants.push(Variant {
                    name: v.ident.to_string(),
                    fields: fields_of(declared, &v.fields)?,
                });
            }
            Data::Enum(variants)
        }
        syn::Data::Struct(input_struct) => Data::Struct(fields_of(declared, &input_struct.fields)?),
        syn::Data::Union(_) => Data::Union,
    };
    let ident = input.ident.to_string();
    let handle = declared.registry.register(DeriveInput { ident: ident.clone(), data })?;
    declared.handles.insert(ident, handle);
    Ok(CodecRef::Composite(handle))
}

fn nothing_declared() -> Declared {
    Declared { registry: Registry::new(), handles: HashMap::new() }
}

#[test]
fn declared_enum_round_trips() {
    let mut declared = nothing_declared();
    let simple =
        declare(&mut declared, "enum SimpleEnum { T0, T1(u8, u8), T2 { x: u8, y: u8 } }").unwrap();
    let composite = declare(
        &mut declared,
        "enum CompositeEnum { T0, T1(SimpleEnum), T2 { x: SimpleEnum, y: u8 } }",
    )
    .unwrap();
    assert_eq!(simple, CodecRef::Composite(0));
    assert_eq!(composite, CodecRef::Composite(1));

    let value = || {
        Value::Sum(2, vec![Value::Sum(2, vec![Value::U8(7), Value::U8(5)]), Value::U8(12)])
    };
    assert_eq!(compile(&declared.registry, composite, &value()), Ok(vec![2, 2, 7, 5, 12]));
    assert_eq!(parse(&declared.registry, composite, &[2, 2, 7, 5, 12, 99]), Ok((value(), 5)));
}

#[test]
fn declared_structs_keep_field_order_and_names() {
    let mut declared = nothing_declared();
    let inner = declare(&mut declared, "struct Inner { x: u16, y: u32, z: u8 }").unwrap();
    let outer = declare(&mut declared, "struct Outer(Inner, i16, bool);").unwrap();

    let d = declared.registry.get(0).unwrap();
    assert_eq!(d.name, "Inner");
    match &d.shape {
        bytecode::Shape::Product(fields) => {
            let names: Vec<_> = fields.iter().map(|f| f.name.as_deref()).collect();
            assert_eq!(names, vec![Some("x"), Some("y"), Some("z")]);
        }
        bytecode::Shape::Sum(_) => panic!("a product was declared"),
    }

    let value = || {
        Value::Product(vec![
            Value::Product(vec![Value::U16(0xABCD), Value::U32(0x55ABCDEF), Value::U8(0xAB)]),
            Value::I16(-2),
            Value::Bool(true),
        ])
    };
    let bytes = compile(&declared.registry, outer, &value()).unwrap();
    assert_eq!(bytes, vec![0xCD, 0xAB, 0xEF, 0xCD, 0xAB, 0x55, 0xAB, 0xFE, 0xFF, 1]);
    assert_eq!(parse(&declared.registry, outer, &bytes), Ok((value(), 10)));
    assert_eq!(
        parse(&declared.registry, inner, &bytes[..6]),
        Err(BytecodeError::IncompleteInstruction)
    );
}

#[test]
fn declarations_that_cannot_be_described() {
    let mut declared = nothing_declared();
    assert_eq!(declare(&mut declared, "struct Unit;"), Err(BytecodeError::Other(UNIT_STRUCT)));
    assert_eq!(declare(&mut declared, "struct Empty {}"), Err(BytecodeError::Other(UNIT_STRUCT)));
    assert_eq!(
        declare(&mut declared, "union U { a: u8, b: u16 }"),
        Err(BytecodeError::Other(UNION))
    );
    assert_eq!(
        declare(&mut declared, "struct S { a: Later }"),
        Err(BytecodeError::Other(UNKNOWN_TYPE))
    );
    assert_eq!(
        declare(&mut declared, "struct S { a: S }"),
        Err(BytecodeError::Other(UNKNOWN_TYPE))
    );
    let mut source = String::from("enum Big {");
    for n in 0..32769 {
        source.push_str(&format!(" V{},", n));
    }
    source.push('}');
    assert_eq!(declare(&mut declared, &source), Err(BytecodeError::Other(TOO_MANY_VARIANTS)));
    assert_eq!(declared.registry.len(), 0);
    declared.registry.well_formed();
}
