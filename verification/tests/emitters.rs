//! Emitter behaviour: TypeScript and Dart renderings of IR values.

use apigen::emit_dart::snake_to_pascal;
use apigen::ir::{ApiKind, ApiPrim, ApiType};
use apigen::text::ascii_upper;

fn named(name: &str, kind: ApiKind) -> ApiType {
    ApiType::new(Some(name.to_string()), kind)
}

fn anon(kind: ApiKind) -> ApiType {
    ApiType::new(None, kind)
}

fn int_ty() -> ApiType {
    anon(ApiKind::Prim(ApiPrim::Int))
}

fn str_ty() -> ApiType {
    anon(ApiKind::Prim(ApiPrim::Str))
}

fn singleton_enum(tag: &str) -> ApiType {
    anon(ApiKind::StrEnum(vec![tag.to_string()]))
}

#[test]
fn ts_primitives() {
    assert_eq!(ApiPrim::Str.ts(true), "string");
    assert_eq!(ApiPrim::Int.ts(true), "number");
    assert_eq!(ApiPrim::Float.ts(true), "number");
    assert_eq!(ApiPrim::Bool.ts(true), "boolean");
    assert_eq!(ApiPrim::File.ts(true), "File");
    assert_eq!(ApiPrim::Null.ts(true), "null");
}

#[test]
fn dart_primitives() {
    assert_eq!(ApiPrim::Str.dart(true), "String");
    assert_eq!(ApiPrim::Int.dart(true), "int");
    assert_eq!(ApiPrim::Float.dart(true), "double");
    assert_eq!(ApiPrim::Bool.dart(true), "bool");
    assert_eq!(ApiPrim::File.dart(true), "http.MultipartFile");
}

#[test]
fn ts_option_wraps_nullable() {
    let t = anon(ApiKind::Prim(ApiPrim::Option(Box::new(int_ty()))));
    assert_eq!(t.body_ts(true), "(number | null)");
    let d = anon(ApiKind::Prim(ApiPrim::Option(Box::new(int_ty()))));
    assert_eq!(d.ref_or_body_dart(true), "int?");
}

#[test]
fn ts_string_enum_renders_quoted_literals() {
    let t = anon(ApiKind::StrEnum(vec!["a".to_string(), "b".to_string()]));
    assert_eq!(t.body_ts(false), "\"a\"|\"b\"");
}

#[test]
fn ts_object_renders_fields_in_order() {
    let t = anon(ApiKind::Object(vec![
        ("x".to_string(), int_ty()),
        ("y".to_string(), str_ty()),
    ]));
    assert_eq!(t.body_ts(false), "{ x:number,y:string, }");
}

#[test]
fn ts_tuple_renders_elements() {
    let t = anon(ApiKind::Tuple(vec![int_ty(), str_ty()]));
    assert_eq!(t.body_ts(false), "[ number,string, ]");
}

#[test]
fn ts_union_and_combo_render_separators() {
    let u = anon(ApiKind::Union(vec![int_ty(), str_ty()]));
    assert_eq!(u.body_ts(false), "number|string");
    let c = anon(ApiKind::Combo(vec![int_ty(), str_ty()]));
    assert_eq!(c.body_ts(false), "number&string");
}

#[test]
fn ts_named_type_renders_its_name() {
    let t = named("Pet", ApiKind::Prim(ApiPrim::Int));
    assert_eq!(t.ref_or_body_ts(true), "Pet");
    assert_eq!(t.ref_or_body_ts(false), "Pet");
}

#[test]
fn ts_anonymous_union_member_keeps_grouping() {
    // An anonymous union inside an intersection is parenthesized, so the
    // shared member distributes over every alternative.
    let u = anon(ApiKind::Union(vec![str_ty(), anon(ApiKind::Prim(ApiPrim::Bool))]));
    let c = anon(ApiKind::Combo(vec![int_ty(), u]));
    assert_eq!(c.body_ts(false), "number&(string|boolean)");
}

#[test]
fn pascal_case_conversion() {
    assert_eq!(snake_to_pascal("foo_bar"), "FooBar");
    assert_eq!(snake_to_pascal("a"), "A");
    assert_eq!(snake_to_pascal("already"), "Already");
}

#[test]
fn ascii_uppercase_conversion() {
    assert_eq!(ascii_upper("active"), "ACTIVE");
    assert_eq!(ascii_upper("mixed_2x"), "MIXED_2X");
}

#[test]
fn dart_typedef_for_named_primitive() {
    let t = named("Count", ApiKind::Prim(ApiPrim::Int));
    assert_eq!(t.def_dart(true), "typedef Count = int;\n");
}

#[test]
fn dart_record_typedef_for_object() {
    let t = named(
        "Point",
        ApiKind::Object(vec![("x".to_string(), int_ty()), ("y".to_string(), int_ty())]),
    );
    assert_eq!(t.def_dart(true), "typedef Point = ({int x,\nint y,\n});");
}

#[test]
fn dart_enum_class_lists_constants() {
    let t = named("State", ApiKind::StrEnum(vec!["on".to_string(), "off".to_string()]));
    let out = t.def_dart(true);
    assert!(out.contains("class State {"));
    assert!(out.contains("static const ON = State._('on');"));
    assert!(out.contains("static const OFF = State._('off');"));
    assert!(out.contains("static const values = [ON,OFF];"));
}

#[test]
fn discriminant_majority_vote_picks_kind() {
    // Two alternatives tag themselves with `kind`, one with `type`: the
    // majority wins.
    let alt1 = anon(ApiKind::Object(vec![
        ("kind".to_string(), singleton_enum("circle")),
        ("r".to_string(), int_ty()),
    ]));
    let alt2 = anon(ApiKind::Object(vec![
        ("kind".to_string(), singleton_enum("square")),
        ("side".to_string(), int_ty()),
    ]));
    let alt3 = anon(ApiKind::Object(vec![
        ("type".to_string(), singleton_enum("dot")),
    ]));
    let t = named("Shape", ApiKind::Union(vec![alt1, alt2, alt3]));
    let out = t.def_dart(true);
    assert!(out.contains("@Freezed(unionKey: 'kind'"), "output: {out}");
    assert!(out.contains("const factory Shape.Circle({required int r,\n}) = ShapeCircle;"));
    assert!(out.contains("const factory Shape.Square({required int side,\n}) = ShapeSquare;"));
}

#[test]
fn combo_distributes_shared_fields_over_union() {
    // An intersection of a shared object and a union: every alternative's
    // factory carries the shared field plus its own.
    let shared = anon(ApiKind::Object(vec![("shared".to_string(), str_ty())]));
    let alt_a = anon(ApiKind::Object(vec![
        ("tag".to_string(), singleton_enum("a")),
        ("a".to_string(), int_ty()),
    ]));
    let alt_b = anon(ApiKind::Object(vec![
        ("tag".to_string(), singleton_enum("b")),
        ("b".to_string(), anon(ApiKind::Prim(ApiPrim::Bool))),
    ]));
    let uni = anon(ApiKind::Union(vec![alt_a, alt_b]));
    let t = named("Mix", ApiKind::Combo(vec![shared, uni]));
    let out = t.def_dart(true);
    assert!(
        out.contains("const factory Mix.A({required String shared,\nrequired int a,\n}) = MixA;"),
        "output: {out}"
    );
    assert!(
        out.contains(
            "const factory Mix.B({required String shared,\nrequired bool b,\n}) = MixB;"
        ),
        "output: {out}"
    );
}

#[test]
fn union_without_discriminant_renders_untagged() {
    // No alternative carries a singleton-enum field: an untagged alias is
    // emitted instead of a crash.
    let shared = anon(ApiKind::Object(vec![("shared".to_string(), str_ty())]));
    let alt_a = anon(ApiKind::Object(vec![("a".to_string(), int_ty())]));
    let alt_b = anon(ApiKind::Object(vec![(
        "b".to_string(),
        anon(ApiKind::Prim(ApiPrim::Bool)),
    )]));
    let uni = anon(ApiKind::Union(vec![alt_a, alt_b]));
    let t = named("Mix2", ApiKind::Combo(vec![shared, uni]));
    assert_eq!(t.def_dart(true), "typedef Mix2 = Object;\n");
}

#[test]
fn dart_class_for_object_with_private_field() {
    // A field name starting with an underscore switches the object to a
    // class with JSON conversion, stripping the underscore from the Dart
    // member name.
    let t = named(
        "Row",
        ApiKind::Object(vec![
            ("_id".to_string(), int_ty()),
            ("label".to_string(), str_ty()),
        ]),
    );
    let out = t.def_dart(true);
    assert!(out.contains("class Row {"), "output: {out}");
    assert!(out.contains("final int id;"), "output: {out}");
    assert!(out.contains("final String label;"), "output: {out}");
    assert!(out.contains("id: json['_id'],"), "output: {out}");
    assert!(out.contains("'_id': id,"), "output: {out}");
}

#[test]
fn dart_inline_record_reference() {
    let t = anon(ApiKind::Object(vec![("x".to_string(), int_ty())]));
    assert_eq!(t.ref_or_body_dart(true), "({ int x, })");
}

#[test]
fn dart_typedef_for_named_array() {
    let t = named("Nums", ApiKind::Array(Box::new(int_ty())));
    assert_eq!(t.def_dart(true), "typedef Nums = List<int>;");
}

#[test]
fn ts_array_of_named_type() {
    let inner = named("Pet", ApiKind::Prim(ApiPrim::Int));
    let t = anon(ApiKind::Array(Box::new(inner)));
    assert_eq!(t.body_ts(true), "Pet[]");
}

#[test]
fn empty_object_renders_empty_braces() {
    let t = anon(ApiKind::Object(Vec::new()));
    assert_eq!(t.body_ts(true), "{  }");
}
