//! Route resolution, request wrappers, and whole-document generation.

use apigen::generate::generate_ts;
use apigen::ir::{ApiKind, ApiPrim, ApiType};
use apigen::raw::{OaSchema, Object, RefOr, SchemaType, Type};
use apigen::routes::{
    url_to_name, ApiParam, ApiParamIn, ApiRequstBody, ApiResponseBody, ApiRoute, Content,
    OaComponents, OpenApi, Operation, Parameter, ParameterIn, PathItem, RequestBody, Response,
};
use apigen::tables::{SchemaTable, TypeTable};
use apigen::GenError;

fn plain_object(ty: Type) -> Object {
    Object {
        schema_type: SchemaType::Type(ty),
        format: None,
        enum_values: None,
        properties: Vec::new(),
        user_defined: false,
    }
}

fn anon(kind: ApiKind) -> ApiType {
    ApiType::new(None, kind)
}

fn empty_route(name: &str, url: &str, method: &str) -> ApiRoute {
    ApiRoute {
        doc: "\n".to_string(),
        name: name.to_string(),
        params: Vec::new(),
        url: url.to_string(),
        request_body: None,
        response_body: None,
        method: method.to_string(),
    }
}

#[test]
fn param_location_predicates() {
    assert!(ApiParamIn::Query.is_query());
    assert!(ApiParamIn::Path.is_path());
    assert!(ApiParamIn::Header.is_header());
    assert!(ApiParamIn::Cookie.is_cookie());
    assert!(!ApiParamIn::Path.is_query());
}

#[test]
fn url_naming_rules() {
    assert_eq!(url_to_name("/users/{id}/posts", "get", false), "users_posts_get");
    assert_eq!(url_to_name("/users", "get", true), "users_list");
    assert_eq!(url_to_name("/users/{id}", "delete", false), "users_del");
    assert_eq!(url_to_name("/users", "post", false), "users_post");
}

#[test]
fn multipart_body_attaches_fields() {
    // A multipart body with a required string and an optional file: the
    // string is attached unconditionally, the file only when present.
    let body_ty = anon(ApiKind::Object(vec![
        ("title".to_string(), anon(ApiKind::Prim(ApiPrim::Str))),
        (
            "avatar".to_string(),
            anon(ApiKind::Prim(ApiPrim::Option(Box::new(anon(ApiKind::Prim(
                ApiPrim::File,
            )))))),
        ),
    ]));
    let mut route = empty_route("upload_post", "/upload", "post");
    route.request_body = Some(ApiRequstBody {
        content_type: "multipart/form-data".to_string(),
        api_type: body_ty,
    });
    let out = route.def_ts().unwrap();
    assert!(out.contains("let data = new FormData();"), "output: {out}");
    assert!(out.contains("data.set('title', body.title);"), "output: {out}");
    assert!(out.contains("body.avatar && data.set('avatar', body.avatar);"), "output: {out}");
}

#[test]
fn multipart_body_must_be_object() {
    let mut route = empty_route("upload_post", "/upload", "post");
    route.request_body = Some(ApiRequstBody {
        content_type: "multipart/form-data".to_string(),
        api_type: anon(ApiKind::Prim(ApiPrim::Str)),
    });
    match route.def_ts() {
        Err(GenError::MultipartBodyMustBeObject) => (),
        other => panic!("expected the multipart error, got {other:?}"),
    }
}

#[test]
fn json_body_is_stringified() {
    let mut route = empty_route("items_post", "/items", "post");
    route.request_body = Some(ApiRequstBody {
        content_type: "application/json".to_string(),
        api_type: anon(ApiKind::Prim(ApiPrim::Str)),
    });
    let out = route.def_ts().unwrap();
    assert!(out.contains("let data = JSON.stringify(body);"));
    assert!(out.contains("'Content-Type': 'application/json',"));
}

#[test]
fn query_parameters_are_partitioned() {
    let mut route = empty_route("items_get", "/items/{id}", "get");
    route.params = vec![
        ApiParam {
            name: "id".to_string(),
            param_in: ApiParamIn::Path,
            required: true,
            api_type: anon(ApiKind::Prim(ApiPrim::Int)),
        },
        ApiParam {
            name: "page".to_string(),
            param_in: ApiParamIn::Query,
            required: false,
            api_type: anon(ApiKind::Prim(ApiPrim::Int)),
        },
    ];
    let out = route.def_ts().unwrap();
    assert!(out.contains("params: {id:number,page?:number,}"), "output: {out}");
    assert!(out.contains("params: { page }"), "output: {out}");
    assert!(out.contains("let { id,page } = params;"), "output: {out}");
    assert!(out.contains("url: `/items/${id}`"), "output: {out}");
}

#[test]
fn missing_parameter_schema_is_reported() {
    let op = Operation {
        summary: None,
        description: None,
        parameters: Some(vec![Parameter {
            name: "id".to_string(),
            parameter_in: ParameterIn::Path,
            required: true,
            schema: None,
        }]),
        request_body: None,
        responses: Vec::new(),
    };
    let schemas = SchemaTable::new(Vec::new());
    let mut types = TypeTable::new();
    match ApiRoute::parse_openapi("/x", "get", &op, &mut types, &schemas) {
        Err(GenError::MissingParameterSchema) => (),
        other => panic!("expected a missing-parameter error, got {other:?}"),
    }
}

#[test]
fn multiple_request_content_types_are_rejected() {
    let rb = RequestBody {
        content: vec![
            (
                "application/json".to_string(),
                Content { schema: Some(RefOr::T(OaSchema::Object(plain_object(Type::String)))) },
            ),
            (
                "text/plain".to_string(),
                Content { schema: Some(RefOr::T(OaSchema::Object(plain_object(Type::String)))) },
            ),
        ],
        required: Some(true),
    };
    let schemas = SchemaTable::new(Vec::new());
    let mut types = TypeTable::new();
    match ApiRequstBody::parse_openapi(&Some(rb), &mut types, &schemas) {
        Err(GenError::MultipleRequestContentTypes) => (),
        other => panic!("expected the multiple-content-types error, got {other:?}"),
    }
}

#[test]
fn list_response_names_route_with_list_suffix() {
    let op = Operation {
        summary: Some("List items".to_string()),
        description: None,
        parameters: None,
        request_body: None,
        responses: vec![(
            "200".to_string(),
            RefOr::T(Response {
                content: vec![(
                    "application/json".to_string(),
                    Content {
                        schema: Some(RefOr::T(OaSchema::Array(apigen::raw::Array {
                            schema_type: SchemaType::Type(Type::Array),
                            items: int_array_items(),
                            prefix_items: Vec::new(),
                            min_items: None,
                            max_items: None,
                            user_defined: false,
                        }))),
                    },
                )],
            }),
        )],
    };
    let schemas = SchemaTable::new(Vec::new());
    let mut types = TypeTable::new();
    let route = ApiRoute::parse_openapi("/items", "get", &op, &mut types, &schemas).unwrap();
    assert_eq!(route.name, "items_list");
    assert_eq!(route.doc, "List items\n");
}

fn int_array_items() -> apigen::raw::ArrayItems {
    apigen::raw::ArrayItems::R(Box::new(RefOr::T(OaSchema::Object(plain_object(
        Type::Integer,
    )))))
}

fn sample_doc() -> OpenApi {
    let pet = Object {
        schema_type: SchemaType::Type(Type::Object),
        format: None,
        enum_values: None,
        properties: vec![
            (
                "name".to_string(),
                RefOr::T(OaSchema::Object(plain_object(Type::String))),
            ),
            (
                "age".to_string(),
                RefOr::T(OaSchema::Object(plain_object(Type::Integer))),
            ),
        ],
        user_defined: false,
    };
    let get_op = Operation {
        summary: Some("Fetch the pet".to_string()),
        description: None,
        parameters: Some(vec![Parameter {
            name: "id".to_string(),
            parameter_in: ParameterIn::Path,
            required: true,
            schema: Some(RefOr::T(OaSchema::Object(plain_object(Type::Integer)))),
        }]),
        request_body: None,
        responses: vec![(
            "200".to_string(),
            RefOr::T(Response {
                content: vec![(
                    "application/json".to_string(),
                    Content {
                        schema: Some(RefOr::Ref(apigen::raw::Ref {
                            loc: "#/components/schemas/Pet".to_string(),
                        })),
                    },
                )],
            }),
        )],
    };
    OpenApi {
        paths: vec![(
            "/pets/{id}".to_string(),
            PathItem { get: Some(get_op), put: None, post: None, patch: None, delete: None },
        )],
        components: OaComponents {
            schemas: vec![("Pet".to_string(), RefOr::T(OaSchema::Object(pet)))],
        },
    }
}

#[test]
fn generation_emits_declarations_and_wrappers() {
    let out = generate_ts(sample_doc()).unwrap();
    assert!(out.starts_with("import * as ud from './user_defined';\n"), "output: {out}");
    assert!(out.contains("export type Pet = { name:string,age:number, };"), "output: {out}");
    assert!(out.contains("export async function pets_get "), "output: {out}");
    assert!(out.contains("body: await r.json()"), "output: {out}");
}

#[test]
fn generation_is_deterministic() {
    // Two runs over byte-identical input produce byte-identical output.
    let a = generate_ts(sample_doc()).unwrap();
    let b = generate_ts(sample_doc()).unwrap();
    assert_eq!(a, b);
}

#[test]
fn user_defined_schema_is_suppressed_but_resolvable() {
    let mut ud = plain_object(Type::String);
    ud.user_defined = true;
    let referencing = Object {
        schema_type: SchemaType::Type(Type::Object),
        format: None,
        enum_values: None,
        properties: vec![(
            "x".to_string(),
            RefOr::Ref(apigen::raw::Ref { loc: "#/components/schemas/Hidden".to_string() }),
        )],
        user_defined: false,
    };
    let doc = OpenApi {
        paths: Vec::new(),
        components: OaComponents {
            schemas: vec![
                ("Hidden".to_string(), RefOr::T(OaSchema::Object(ud))),
                ("Wrapper".to_string(), RefOr::T(OaSchema::Object(referencing))),
            ],
        },
    };
    let out = generate_ts(doc).unwrap();
    assert!(!out.contains("export type Hidden"), "output: {out}");
    assert!(out.contains("export type Wrapper = { x:Hidden, };"), "output: {out}");
}

#[test]
fn plain_response_body_resolves() {
    let res = Response {
        content: vec![(
            "text/plain".to_string(),
            Content { schema: Some(RefOr::T(OaSchema::Object(plain_object(Type::String)))) },
        )],
    };
    let schemas = SchemaTable::new(Vec::new());
    let mut types = TypeTable::new();
    let rb = ApiResponseBody::parse_openapi(Some(&res), &mut types, &schemas)
        .unwrap()
        .unwrap();
    assert_eq!(rb.content_type, "text/plain");
    assert!(matches!(rb.api_type.unwrap().kind, ApiKind::Prim(ApiPrim::Str)));
}

#[test]
fn dart_wrapper_renders_signature() {
    let mut route = empty_route("items_post", "/items/{id}", "post");
    route.params = vec![ApiParam {
        name: "id".to_string(),
        param_in: ApiParamIn::Path,
        required: true,
        api_type: anon(ApiKind::Prim(ApiPrim::Int)),
    }];
    route.request_body = Some(ApiRequstBody {
        content_type: "application/json".to_string(),
        api_type: anon(ApiKind::Prim(ApiPrim::Str)),
    });
    let out = route.def_dart().unwrap();
    assert!(out.contains("Future<void> items_post (int id, String body) async {"), "output: {out}");
    assert!(out.contains("let data = JSON.stringify(body);"), "output: {out}");
    assert!(out.contains("url: `/items/${id}`"), "output: {out}");
    assert!(out.contains("method: 'POST'"), "output: {out}");
}

#[test]
fn unknown_response_content_type_is_reported() {
    let mut route = empty_route("blob_get", "/blob", "get");
    route.response_body = Some(ApiResponseBody {
        content_type: "image/png".to_string(),
        api_type: None,
    });
    match route.def_ts() {
        Err(GenError::UnsupportedSchema(ct)) => assert_eq!(ct, "image/png"),
        other => panic!("expected an unsupported-schema error, got {other:?}"),
    }
}

#[test]
fn digit_leading_url_name_is_prefixed() {
    // The first kept character is a digit: an underscore keeps the name a
    // valid identifier.
    assert_eq!(url_to_name("/2fa/enable", "post", false), "_2fa_enable_post");
}

#[test]
fn multipart_numeric_field_is_a_blob_part() {
    // A numeric field is neither a string/file primitive nor an option of
    // one: it travels as a JSON-encoded blob part.
    let body_ty = anon(ApiKind::Object(vec![(
        "count".to_string(),
        anon(ApiKind::Prim(ApiPrim::Int)),
    )]));
    let mut route = empty_route("counts_post", "/counts", "post");
    route.request_body = Some(ApiRequstBody {
        content_type: "multipart/form-data".to_string(),
        api_type: body_ty,
    });
    let out = route.def_ts().unwrap();
    assert!(out.contains("[JSON.stringify(body.count)]"), "output: {out}");
    assert!(!out.contains("data.set('count', body.count);"), "output: {out}");
}

#[test]
fn multipart_optional_structured_field_is_a_blob_part() {
    // An option of a structured type is not an option of a primitive: it
    // travels as a JSON-encoded blob part, not conditionally raw.
    let body_ty = anon(ApiKind::Object(vec![(
        "meta".to_string(),
        anon(ApiKind::Prim(ApiPrim::Option(Box::new(anon(ApiKind::Object(Vec::new())))))),
    )]));
    let mut route = empty_route("meta_post", "/meta", "post");
    route.request_body = Some(ApiRequstBody {
        content_type: "multipart/form-data".to_string(),
        api_type: body_ty,
    });
    let out = route.def_ts().unwrap();
    assert!(out.contains("[JSON.stringify(body.meta)]"), "output: {out}");
    assert!(!out.contains("body.meta && "), "output: {out}");
}
