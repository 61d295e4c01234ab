use bytecode::descriptor::{NO_VARIANTS, TOO_MANY_VARIANTS, UNION, UNIT_STRUCT};
use bytecode::wire::UNKNOWN_TYPE;
use bytecode::{
    derive_enum, derive_named, derive_struct, derive_unnamed, parse, BytecodeError, CodecRef,
    Data, DeriveInput, Field, Fields, Primitive, Registry, Shape, Variant,
};

fn u8_ref() -> CodecRef {
    CodecRef::Primitive(Primitive::U8)
}

fn unit_variants(count: usize) -> Vec<Variant> {
    (0..count).map(|n| Variant { name: format!("V{}", n), fields: Fields::Unit }).collect()
}

fn input(name: &str, data: Data) -> DeriveInput {
    DeriveInput { ident: String::from(name), data }
}

#[test]
fn enum_with_variants_is_described() {
    let d = derive_enum(String::from("E"), unit_variants(3)).unwrap();
    assert_eq!(d.name, "E");
    match d.shape {
        Shape::Sum(variants) => {
            assert_eq!(variants.len(), 3);
            assert_eq!(variants[0].name, "V0");
            assert_eq!(variants[2].name, "V2");
        }
        Shape::Product(_) => panic!("a sum was declared"),
    }
}

#[test]
fn enum_with_the_most_variants_is_described() {
    let d = derive_enum(String::from("E"), unit_variants(32768)).unwrap();
    match d.shape {
        Shape::Sum(variants) => assert_eq!(variants.len(), 32768),
        Shape::Product(_) => panic!("a sum was declared"),
    }
}

#[test]
fn enum_with_too_many_variants_is_refused() {
    let r = derive_enum(String::from("E"), unit_variants(32769));
    assert_eq!(r.unwrap_err(), BytecodeError::Other(TOO_MANY_VARIANTS));
    assert_eq!(TOO_MANY_VARIANTS, "Currently at max 32768 enum variants are supported");
}

#[test]
fn enum_without_variants_is_refused() {
    let r = derive_enum(String::from("E"), Vec::new());
    assert_eq!(r.unwrap_err(), BytecodeError::Other(NO_VARIANTS));
}

#[test]
fn unit_struct_is_refused() {
    let r = derive_struct(String::from("S"), Fields::Unit);
    assert_eq!(r.unwrap_err(), BytecodeError::Other(UNIT_STRUCT));
    assert_eq!(UNIT_STRUCT, "Bytecode is not supported for Unit type structs");
}

#[test]
fn struct_without_fields_is_refused() {
    let r = derive_struct(String::from("S"), Fields::Unnamed(Vec::new()));
    assert_eq!(r.unwrap_err(), BytecodeError::Other(UNIT_STRUCT));
    let r = derive_struct(String::from("S"), Fields::Named(Vec::new()));
    assert_eq!(r.unwrap_err(), BytecodeError::Other(UNIT_STRUCT));
    let r = derive_unnamed(String::from("S"), Vec::new());
    assert_eq!(r.unwrap_err(), BytecodeError::Other(UNIT_STRUCT));
    let r = derive_named(String::from("S"), Vec::new());
    assert_eq!(r.unwrap_err(), BytecodeError::Other(UNIT_STRUCT));
}

#[test]
fn union_is_refused() {
    let r = bytecode::descriptor::derive(input("U", Data::Union));
    assert_eq!(r.unwrap_err(), BytecodeError::Other(UNION));
    assert_eq!(UNION, "Bytecode is not supported for Unions");
}

#[test]
fn tuple_struct_fields_have_no_names() {
    let d = derive_struct(
        String::from("S"),
        Fields::Unnamed(vec![u8_ref(), CodecRef::Primitive(Primitive::I64)]),
    )
    .unwrap();
    assert_eq!(d.name, "S");
    match d.shape {
        Shape::Product(fields) => {
            assert_eq!(fields.len(), 2);
            assert_eq!(fields[0].name, None);
            assert_eq!(fields[0].ty, u8_ref());
            assert_eq!(fields[1].name, None);
            assert_eq!(fields[1].ty, CodecRef::Primitive(Primitive::I64));
        }
        Shape::Sum(_) => panic!("a product was declared"),
    }
}

#[test]
fn named_struct_fields_keep_their_names_and_order() {
    let d = derive_struct(
        String::from("S"),
        Fields::Named(vec![
            Field { name: Some(String::from("b")), ty: CodecRef::Primitive(Primitive::Bool) },
            Field { name: Some(String::from("a")), ty: u8_ref() },
        ]),
    )
    .unwrap();
    match d.shape {
        Shape::Product(fields) => {
            assert_eq!(fields.len(), 2);
            assert_eq!(fields[0].name.as_deref(), Some("b"));
            assert_eq!(fields[0].ty, CodecRef::Primitive(Primitive::Bool));
            assert_eq!(fields[1].name.as_deref(), Some("a"));
            assert_eq!(fields[1].ty, u8_ref());
        }
        Shape::Sum(_) => panic!("a product was declared"),
    }
}

#[test]
fn derive_picks_the_builder_by_what_is_declared() {
    let d = bytecode::descriptor::derive(input("E", Data::Enum(unit_variants(2)))).unwrap();
    assert!(matches!(d.shape, Shape::Sum(_)));
    let d = bytecode::descriptor::derive(input(
        "S",
        Data::Struct(Fields::Unnamed(vec![u8_ref()])),
    ))
    .unwrap();
    assert!(matches!(d.shape, Shape::Product(_)));
    let r = bytecode::descriptor::derive(input("S", Data::Struct(Fields::Unit)));
    assert_eq!(r.unwrap_err(), BytecodeError::Other(UNIT_STRUCT));
    let r = bytecode::descriptor::derive(input("E", Data::Enum(Vec::new())));
    assert_eq!(r.unwrap_err(), BytecodeError::Other(NO_VARIANTS));
}

#[test]
fn handles_count_up_from_zero() {
    let mut registry = Registry::new();
    assert_eq!(registry.len(), 0);
    assert!(registry.get(0).is_none());
    assert_eq!(registry.register(input("A", Data::Enum(unit_variants(1)))), Ok(0));
    assert_eq!(registry.register(input("B", Data::Struct(Fields::Unnamed(vec![u8_ref()])))), Ok(1));
    assert_eq!(registry.len(), 2);
    assert_eq!(registry.get(0).unwrap().name, "A");
    assert_eq!(registry.get(1).unwrap().name, "B");
    assert!(registry.get(2).is_none());
}

#[test]
fn a_refused_declaration_leaves_the_registry_alone() {
    let mut registry = Registry::new();
    assert_eq!(registry.register(input("A", Data::Enum(unit_variants(1)))), Ok(0));
    assert_eq!(
        registry.register(input("B", Data::Enum(unit_variants(32769)))),
        Err(BytecodeError::Other(TOO_MANY_VARIANTS))
    );
    assert_eq!(
        registry.register(input("C", Data::Struct(Fields::Unit))),
        Err(BytecodeError::Other(UNIT_STRUCT))
    );
    assert_eq!(registry.register(input("D", Data::Union)), Err(BytecodeError::Other(UNION)));
    assert_eq!(registry.len(), 1);
    assert_eq!(registry.register(input("E", Data::Enum(unit_variants(1)))), Ok(1));
}

#[test]
fn a_type_cannot_name_itself_or_a_later_type() {
    let mut registry = Registry::new();
    let own = CodecRef::Composite(0);
    assert_eq!(
        registry.register(input("S", Data::Struct(Fields::Unnamed(vec![own])))),
        Err(BytecodeError::Other(UNKNOWN_TYPE))
    );
    assert_eq!(
        registry.register(input(
            "S",
            Data::Struct(Fields::Named(vec![Field { name: Some(String::from("x")), ty: own }]))
        )),
        Err(BytecodeError::Other(UNKNOWN_TYPE))
    );
    let later = Variant { name: String::from("V"), fields: Fields::Unnamed(vec![u8_ref(), own]) };
    assert_eq!(
        registry.register(input("E", Data::Enum(vec![later]))),
        Err(BytecodeError::Other(UNKNOWN_TYPE))
    );
    assert_eq!(registry.len(), 0);
    assert_eq!(registry.register(input("A", Data::Enum(unit_variants(1)))), Ok(0));
    assert_eq!(registry.register(input("S", Data::Struct(Fields::Unnamed(vec![own])))), Ok(1));
}

#[test]
fn a_handle_that_names_nothing_cannot_be_decoded() {
    let registry = Registry::new();
    assert_eq!(
        parse(&registry, CodecRef::Composite(0), &[1, 2, 3]),
        Err(BytecodeError::Other(UNKNOWN_TYPE))
    );
}

#[test]
fn building_fails_before_any_decode() {
    // A sum with too many variants never becomes a type, so there is no
    // handle under which bytes could be decoded.
    let mut registry = Registry::new();
    let r = registry.register(input("E", Data::Enum(unit_variants(40000))));
    assert_eq!(r, Err(BytecodeError::Other(TOO_MANY_VARIANTS)));
    assert!(registry.get(0).is_none());
    let r = registry.register(input("S", Data::Struct(Fields::Unit)));
    assert_eq!(r, Err(BytecodeError::Other(UNIT_STRUCT)));
    assert!(registry.get(0).is_none());
    // The largest sum that can be built decodes its last variant.
    let h = registry.register(input("E", Data::Enum(unit_variants(32768)))).unwrap();
    let r = parse(&registry, CodecRef::Composite(h), &[255, 255]);
    assert_eq!(r.unwrap().1, 2);
}
