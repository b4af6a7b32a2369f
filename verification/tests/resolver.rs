//! Resolver behaviour: memoization, nullability, tuples, cycles, errors.

use apigen::ir::{ApiKind, ApiPrim, ApiType};
use apigen::raw::{
    Array, ArrayItems, EnumLiteral, OaSchema, Object, OneOf, Ref, RefOr, SchemaFormat, SchemaType,
    Type,
};
use apigen::tables::{AncestorSet, SchemaTable, TypeTable};
use apigen::GenError;

fn plain_object(ty: Type) -> Object {
    Object {
        schema_type: SchemaType::Type(ty),
        format: None,
        enum_values: None,
        properties: Vec::new(),
        user_defined: false,
    }
}

fn int_schema() -> OaSchema {
    OaSchema::Object(plain_object(Type::Integer))
}

fn null_schema() -> OaSchema {
    OaSchema::Object(plain_object(Type::Null))
}

fn string_schema() -> OaSchema {
    OaSchema::Object(plain_object(Type::String))
}

fn reference(loc: &str) -> RefOr<OaSchema> {
    RefOr::Ref(Ref { loc: loc.to_string() })
}

fn resolve(
    value: &RefOr<OaSchema>,
    entries: Vec<(String, RefOr<OaSchema>)>,
) -> Result<ApiType, GenError> {
    let schemas = SchemaTable::new(entries);
    let mut types = TypeTable::new();
    ApiType::parse_openapi(None, value, AncestorSet::new(), &mut types, &schemas)
}

#[test]
fn resolves_primitives() {
    let t = resolve(&RefOr::T(int_schema()), Vec::new()).unwrap();
    assert!(matches!(t.kind, ApiKind::Prim(ApiPrim::Int)));
    let t = resolve(&RefOr::T(string_schema()), Vec::new()).unwrap();
    assert!(matches!(t.kind, ApiKind::Prim(ApiPrim::Str)));
    let t = resolve(&RefOr::T(null_schema()), Vec::new()).unwrap();
    assert!(t.is_null());
    assert!(t.is_prim());
}

#[test]
fn memoization_is_idempotent() {
    // Two reference sites to the same named schema: the second resolution is
    // served from the reference table and is structurally equal.
    let entries = vec![("Pet".to_string(), RefOr::T(string_schema()))];
    let schemas = SchemaTable::new(entries);
    let mut types = TypeTable::new();
    let site1 = reference("#/components/schemas/Pet");
    let site2 = reference("#/components/schemas/Pet");
    let t1 = ApiType::parse_openapi(None, &site1, AncestorSet::new(), &mut types, &schemas)
        .unwrap();
    let t2 = ApiType::parse_openapi(None, &site2, AncestorSet::new(), &mut types, &schemas)
        .unwrap();
    assert_eq!(t1.name.as_deref(), Some("Pet"));
    assert_eq!(t2.name.as_deref(), Some("Pet"));
    assert!(matches!(t1.kind, ApiKind::Prim(ApiPrim::Str)));
    assert!(matches!(t2.kind, ApiKind::Prim(ApiPrim::Str)));
    assert_eq!(t1.body_ts(false), t2.body_ts(false));
}

#[test]
fn nullable_type_list_wraps_option() {
    // Encoding 1: type: [string, null].
    let mut o = plain_object(Type::String);
    o.schema_type = SchemaType::Array(vec![Type::String, Type::Null]);
    let t = resolve(&RefOr::T(OaSchema::Object(o)), Vec::new()).unwrap();
    match t.kind {
        ApiKind::Prim(ApiPrim::Option(inner)) => {
            assert!(matches!(inner.kind, ApiKind::Prim(ApiPrim::Str)));
        }
        other => panic!("expected an option, got {other:?}"),
    }
}

#[test]
fn nullable_oneof_wraps_option() {
    // Encoding 2: oneOf with a null alternative.
    let of = OneOf {
        items: vec![RefOr::T(int_schema()), RefOr::T(null_schema())],
        user_defined: false,
    };
    let t = resolve(&RefOr::T(OaSchema::OneOf(of)), Vec::new()).unwrap();
    match t.kind {
        ApiKind::Prim(ApiPrim::Option(inner)) => {
            assert!(matches!(inner.kind, ApiKind::Prim(ApiPrim::Int)));
        }
        other => panic!("expected an option, got {other:?}"),
    }
}

#[test]
fn nullable_array_wraps_option() {
    // Encoding 3: an array schema with type: [array, null].
    let a = Array {
        schema_type: SchemaType::Array(vec![Type::Array, Type::Null]),
        items: ArrayItems::R(Box::new(RefOr::T(int_schema()))),
        prefix_items: Vec::new(),
        min_items: None,
        max_items: None,
        user_defined: false,
    };
    let t = resolve(&RefOr::T(OaSchema::Array(a)), Vec::new()).unwrap();
    match t.kind {
        ApiKind::Prim(ApiPrim::Option(inner)) => match &inner.kind {
            ApiKind::Array(item) => {
                assert!(matches!(item.kind, ApiKind::Prim(ApiPrim::Int)));
            }
            other => panic!("expected an array inside the option, got {other:?}"),
        },
        other => panic!("expected an option, got {other:?}"),
    }
}

#[test]
fn fixed_count_array_collapses_to_tuple() {
    // minItems == maxItems == 3 with an integer item schema.
    let a = Array {
        schema_type: SchemaType::Type(Type::Array),
        items: ArrayItems::R(Box::new(RefOr::T(int_schema()))),
        prefix_items: Vec::new(),
        min_items: Some(3),
        max_items: Some(3),
        user_defined: false,
    };
    let t = resolve(&RefOr::T(OaSchema::Array(a)), Vec::new()).unwrap();
    match &t.kind {
        ApiKind::Tuple(elems) => {
            assert_eq!(elems.len(), 3);
            for e in elems {
                assert!(matches!(e.kind, ApiKind::Prim(ApiPrim::Int)));
            }
        }
        other => panic!("expected a tuple, not an array: {other:?}"),
    }
}

#[test]
fn unbounded_array_stays_array() {
    let a = Array {
        schema_type: SchemaType::Type(Type::Array),
        items: ArrayItems::R(Box::new(RefOr::T(int_schema()))),
        prefix_items: Vec::new(),
        min_items: Some(1),
        max_items: Some(3),
        user_defined: false,
    };
    let t = resolve(&RefOr::T(OaSchema::Array(a)), Vec::new()).unwrap();
    assert!(matches!(t.kind, ApiKind::Array(_)));
}

#[test]
fn self_referential_schema_terminates_with_recursive_marker() {
    // A schema whose only property is itself, through a reference.
    let obj = Object {
        schema_type: SchemaType::Type(Type::Object),
        format: None,
        enum_values: None,
        properties: vec![("next".to_string(), reference("#/components/schemas/A"))],
        user_defined: false,
    };
    let entries = vec![("A".to_string(), RefOr::T(OaSchema::Object(obj)))];
    let site = reference("#/components/schemas/A");
    let t = resolve(&site, entries).unwrap();
    assert_eq!(t.name.as_deref(), Some("A"));
    match &t.kind {
        ApiKind::Object(fields) => {
            assert_eq!(fields.len(), 1);
            assert_eq!(fields[0].0, "next");
            assert!(matches!(fields[0].1.kind, ApiKind::Recursive));
            assert_eq!(fields[0].1.name.as_deref(), Some("A"));
        }
        other => panic!("expected an object, got {other:?}"),
    }
}

#[test]
fn singleton_oneof_collapses_to_member() {
    let of = OneOf { items: vec![RefOr::T(int_schema())], user_defined: false };
    let t = resolve(&RefOr::T(OaSchema::OneOf(of)), Vec::new()).unwrap();
    assert!(matches!(t.kind, ApiKind::Prim(ApiPrim::Int)));
}

#[test]
fn string_enum_resolves() {
    let mut o = plain_object(Type::String);
    o.enum_values = Some(vec![
        EnumLiteral::Str("active".to_string()),
        EnumLiteral::Str("done".to_string()),
    ]);
    let t = resolve(&RefOr::T(OaSchema::Object(o)), Vec::new()).unwrap();
    match &t.kind {
        ApiKind::StrEnum(ls) => assert_eq!(ls, &vec!["active".to_string(), "done".to_string()]),
        other => panic!("expected a string enum, got {other:?}"),
    }
}

#[test]
fn binary_format_resolves_to_file() {
    let mut o = plain_object(Type::String);
    o.format = Some(SchemaFormat::KnownFormat(apigen::raw::KnownFormat::Binary));
    let t = resolve(&RefOr::T(OaSchema::Object(o)), Vec::new()).unwrap();
    assert!(matches!(t.kind, ApiKind::Prim(ApiPrim::File)));
}

#[test]
fn unresolved_reference_is_reported() {
    let site = reference("#/components/schemas/Missing");
    match resolve(&site, Vec::new()) {
        Err(GenError::UnresolvedReference(n)) => assert_eq!(n, "Missing"),
        other => panic!("expected an unresolved-reference error, got {other:?}"),
    }
}

#[test]
fn anonymous_cycle_is_reported() {
    // A reference whose extracted name is empty, cycling to itself.
    let entries = vec![("".to_string(), reference("/"))];
    let site = reference("/");
    match resolve(&site, entries) {
        Err(GenError::SchemaCycleWithoutName) => (),
        other => panic!("expected an anonymous-cycle error, got {other:?}"),
    }
}

#[test]
fn any_of_is_unsupported() {
    match resolve(&RefOr::T(OaSchema::AnyOf), Vec::new()) {
        Err(GenError::UnsupportedSchema(s)) => assert_eq!(s, "anyOf"),
        other => panic!("expected an unsupported-schema error, got {other:?}"),
    }
}

#[test]
fn custom_format_is_unsupported() {
    let mut o = plain_object(Type::String);
    o.format = Some(SchemaFormat::Custom("funky".to_string()));
    match resolve(&RefOr::T(OaSchema::Object(o)), Vec::new()) {
        Err(GenError::UnsupportedFormat(s)) => assert_eq!(s, "funky"),
        other => panic!("expected an unsupported-format error, got {other:?}"),
    }
}

#[test]
fn combo_resolves_members_in_order() {
    let all = apigen::raw::AllOf {
        items: vec![RefOr::T(int_schema()), RefOr::T(string_schema())],
        user_defined: false,
    };
    let t = resolve(&RefOr::T(OaSchema::AllOf(all)), Vec::new()).unwrap();
    match &t.kind {
        ApiKind::Combo(ms) => {
            assert_eq!(ms.len(), 2);
            assert!(matches!(ms[0].kind, ApiKind::Prim(ApiPrim::Int)));
            assert!(matches!(ms[1].kind, ApiKind::Prim(ApiPrim::Str)));
        }
        other => panic!("expected an intersection, got {other:?}"),
    }
}

#[test]
fn prefix_items_become_tuple() {
    let a = Array {
        schema_type: SchemaType::Type(Type::Array),
        items: ArrayItems::False,
        prefix_items: vec![int_schema(), string_schema()],
        min_items: None,
        max_items: None,
        user_defined: false,
    };
    let t = resolve(&RefOr::T(OaSchema::Array(a)), Vec::new()).unwrap();
    match &t.kind {
        ApiKind::Tuple(elems) => {
            assert_eq!(elems.len(), 2);
            assert!(matches!(elems[0].kind, ApiKind::Prim(ApiPrim::Int)));
            assert!(matches!(elems[1].kind, ApiKind::Prim(ApiPrim::Str)));
        }
        other => panic!("expected a tuple, got {other:?}"),
    }
}

#[test]
fn reference_name_is_last_path_segment() {
    // The name under which a resolution is memoized comes from the last
    // segment of the reference location.
    let entries = vec![("Deep".to_string(), RefOr::T(int_schema()))];
    let site = reference("#/components/schemas/Deep");
    let t = resolve(&site, entries).unwrap();
    assert_eq!(t.name.as_deref(), Some("Deep"));
}

#[test]
fn empty_enum_literal_list_is_enum() {
    let mut o = plain_object(Type::String);
    o.enum_values = Some(Vec::new());
    let t = resolve(&RefOr::T(OaSchema::Object(o)), Vec::new()).unwrap();
    match &t.kind {
        ApiKind::StrEnum(ls) => assert!(ls.is_empty()),
        other => panic!("expected a string enum, got {other:?}"),
    }
}

#[test]
fn non_string_enum_literal_is_unsupported() {
    let mut o = plain_object(Type::String);
    o.enum_values = Some(vec![EnumLiteral::Str("a".to_string()), EnumLiteral::Other]);
    match resolve(&RefOr::T(OaSchema::Object(o)), Vec::new()) {
        Err(GenError::UnsupportedSchema(s)) => assert_eq!(s, "enum literal"),
        other => panic!("expected an unsupported-schema error, got {other:?}"),
    }
}

#[test]
fn non_binary_known_format_names_the_marker() {
    let mut o = plain_object(Type::String);
    o.format = Some(SchemaFormat::KnownFormat(apigen::raw::KnownFormat::Date));
    match resolve(&RefOr::T(OaSchema::Object(o)), Vec::new()) {
        Err(GenError::UnsupportedFormat(s)) => assert_eq!(s, "date"),
        other => panic!("expected an unsupported-format error, got {other:?}"),
    }
}
