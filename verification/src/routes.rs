//! Routes: raw path operations, the route IR, and the route resolver.
//!
//! One operation (a URL template plus an HTTP verb) is resolved into an
//! `ApiRoute`: its parameters, optional request body and success response
//! body are resolved through the schema resolver, and the route's function
//! name is derived from the URL template.

use vstd::prelude::*;

use crate::ir::{opt_str_view, ty_view, ApiKind, ApiType, TyV};
use crate::raw::{ref_or_view, OaSchema, RefOr, RefOrV};
use crate::resolve::spec_resolve;
use crate::tables::{AncestorSet, SchemaTable, TypeTable};
use crate::text::push_char;
use crate::{err_view, ErrV, GenError};

verus! {

broadcast use
    vstd::seq::group_seq_axioms,
    vstd::std_specs::vec::group_vec_axioms,
    vstd::map::group_map_axioms,
    vstd::set::group_set_axioms;

// ------------------------------------------------------------------
// Raw operation model
// ------------------------------------------------------------------

/// Where an operation parameter is carried.
#[derive(Debug, Clone, Copy, PartialEq, Eq, Structural)]
pub enum ParameterIn {
    Query,
    Path,
    Header,
    Cookie,
}

/// One declared operation parameter.
#[derive(Debug)]
pub struct Parameter {
    pub name: String,
    pub parameter_in: ParameterIn,
    pub required: bool,
    pub schema: Option<RefOr<OaSchema>>,
}

/// One content-type entry of a body.
#[derive(Debug)]
pub struct Content {
    pub schema: Option<RefOr<OaSchema>>,
}

/// A declared request body: content-type entries in declaration order.
#[derive(Debug)]
pub struct RequestBody {
    pub content: Vec<(String, Content)>,
    pub required: Option<bool>,
}

/// A declared response: content-type entries in declaration order.
#[derive(Debug)]
pub struct Response {
    pub content: Vec<(String, Content)>,
}

/// One path/verb operation.
#[derive(Debug)]
pub struct Operation {
    pub summary: Option<String>,
    pub description: Option<String>,
    pub parameters: Option<Vec<Parameter>>,
    pub request_body: Option<RequestBody>,
    /// Response entries keyed by status code, in declaration order.
    pub responses: Vec<(String, RefOr<Response>)>,
}

/// The operations declared under one URL template.
#[derive(Debug)]
pub struct PathItem {
    pub get: Option<Operation>,
    pub put: Option<Operation>,
    pub post: Option<Operation>,
    pub patch: Option<Operation>,
    pub delete: Option<Operation>,
}

/// The named schema definitions of a document.
#[derive(Debug)]
pub struct OaComponents {
    pub schemas: Vec<(String, RefOr<OaSchema>)>,
}

/// A whole interface-description document.
#[derive(Debug)]
pub struct OpenApi {
    pub paths: Vec<(String, PathItem)>,
    pub components: OaComponents,
}

// Ghost mirrors of the raw operation model.

pub ghost struct ParameterV {
    pub name: Seq<char>,
    pub parameter_in: ParameterIn,
    pub required: bool,
    pub schema: Option<RefOrV>,
}

pub ghost struct ContentV {
    pub schema: Option<RefOrV>,
}

pub ghost struct RequestBodyV {
    pub content: Seq<(Seq<char>, ContentV)>,
    pub required: Option<bool>,
}

pub ghost struct ResponseV {
    pub content: Seq<(Seq<char>, ContentV)>,
}

pub ghost enum RespOrV {
    Ref(Seq<char>),
    T(ResponseV),
}

pub ghost struct OperationV {
    pub summary: Option<Seq<char>>,
    pub description: Option<Seq<char>>,
    pub parameters: Option<Seq<ParameterV>>,
    pub request_body: Option<RequestBodyV>,
    pub responses: Seq<(Seq<char>, RespOrV)>,
}

pub open spec fn opt_schema_view(s: Option<RefOr<OaSchema>>) -> Option<RefOrV> {
    match s {
        Some(v) => Some(ref_or_view(v)),
        None => None,
    }
}

pub open spec fn parameter_view(p: Parameter) -> ParameterV {
    ParameterV {
        name: p.name@,
        parameter_in: p.parameter_in,
        required: p.required,
        schema: opt_schema_view(p.schema),
    }
}

pub open spec fn content_view(c: Content) -> ContentV {
    ContentV { schema: opt_schema_view(c.schema) }
}

pub open spec fn contents_view(cs: Vec<(String, Content)>) -> Seq<(Seq<char>, ContentV)> {
    Seq::new(cs@.len(), |i: int| (cs@[i].0@, content_view(cs@[i].1)))
}

pub open spec fn request_body_view(rb: RequestBody) -> RequestBodyV {
    RequestBodyV { content: contents_view(rb.content), required: rb.required }
}

pub open spec fn response_view(r: Response) -> ResponseV {
    ResponseV { content: contents_view(r.content) }
}

pub open spec fn resp_or_view(r: RefOr<Response>) -> RespOrV {
    match r {
        RefOr::Ref(rf) => RespOrV::Ref(rf.loc@),
        RefOr::T(t) => RespOrV::T(response_view(t)),
    }
}

pub open spec fn operation_view(op: Operation) -> OperationV {
    OperationV {
        summary: opt_str_view(op.summary),
        description: opt_str_view(op.description),
        parameters: match op.parameters {
            Some(ps) => Some(Seq::new(ps@.len(), |i: int| parameter_view(ps@[i]))),
            None => None,
        },
        request_body: match op.request_body {
            Some(rb) => Some(request_body_view(rb)),
            None => None,
        },
        responses: Seq::new(
            op.responses@.len(),
            |i: int| (op.responses@[i].0@, resp_or_view(op.responses@[i].1)),
        ),
    }
}

impl View for Operation {
    type V = OperationV;

    open spec fn view(&self) -> OperationV {
        operation_view(*self)
    }
}

// ------------------------------------------------------------------
// Route IR
// ------------------------------------------------------------------

/// Where a resolved parameter is carried.
#[derive(Debug, Clone, Copy, PartialEq, Eq, Structural)]
pub enum ApiParamIn {
    Path,
    Query,
    Header,
    Cookie,
}

impl ApiParamIn {
    pub fn is_query(&self) -> (r: bool)
        ensures
            r == (*self is Query),
    {
        matches!(self, Self::Query)
    }

    pub fn is_path(&self) -> (r: bool)
        ensures
            r == (*self is Path),
    {
        matches!(self, Self::Path)
    }

    pub fn is_header(&self) -> (r: bool)
        ensures
            r == (*self is Header),
    {
        matches!(self, Self::Header)
    }

    pub fn is_cookie(&self) -> (r: bool)
        ensures
            r == (*self is Cookie),
    {
        matches!(self, Self::Cookie)
    }
}

impl From<ParameterIn> for ApiParamIn {
    fn from(value: ParameterIn) -> (r: Self) {
        match value {
            ParameterIn::Path => Self::Path,
            ParameterIn::Query => Self::Query,
            ParameterIn::Header => Self::Header,
            ParameterIn::Cookie => Self::Cookie,
        }
    }
}

pub open spec fn param_in_view(value: ParameterIn) -> ApiParamIn {
    match value {
        ParameterIn::Path => ApiParamIn::Path,
        ParameterIn::Query => ApiParamIn::Query,
        ParameterIn::Header => ApiParamIn::Header,
        ParameterIn::Cookie => ApiParamIn::Cookie,
    }
}

impl vstd::std_specs::convert::FromSpecImpl<ParameterIn> for ApiParamIn {
    open spec fn obeys_from_spec() -> bool {
        true
    }

    open spec fn from_spec(value: ParameterIn) -> Self {
        param_in_view(value)
    }
}

/// One resolved operation parameter.
#[derive(Debug)]
pub struct ApiParam {
    pub name: String,
    pub param_in: ApiParamIn,
    pub required: bool,
    pub api_type: ApiType,
}

/// A resolved response body.
#[derive(Debug)]
pub struct ApiResponseBody {
    pub content_type: String,
    pub api_type: Option<ApiType>,
}

/// A resolved request body.
#[derive(Debug)]
pub struct ApiRequstBody {
    pub content_type: String,
    pub api_type: ApiType,
}

/// One resolved operation.
#[derive(Debug)]
pub struct ApiRoute {
    pub doc: String,
    pub name: String,
    pub params: Vec<ApiParam>,
    pub url: String,
    pub request_body: Option<ApiRequstBody>,
    pub response_body: Option<ApiResponseBody>,
    pub method: String,
}

// Ghost mirrors of the route IR.

pub ghost struct ParamV {
    pub name: Seq<char>,
    pub param_in: ApiParamIn,
    pub required: bool,
    pub api_type: TyV,
}

pub ghost struct RespBodyV {
    pub content_type: Seq<char>,
    pub api_type: Option<TyV>,
}

pub ghost struct ReqBodyV {
    pub content_type: Seq<char>,
    pub api_type: TyV,
}

pub ghost struct RouteV {
    pub doc: Seq<char>,
    pub name: Seq<char>,
    pub params: Seq<ParamV>,
    pub url: Seq<char>,
    pub request_body: Option<ReqBodyV>,
    pub response_body: Option<RespBodyV>,
    pub method: Seq<char>,
}

pub open spec fn param_view(p: ApiParam) -> ParamV {
    ParamV {
        name: p.name@,
        param_in: p.param_in,
        required: p.required,
        api_type: ty_view(p.api_type),
    }
}

pub open spec fn params_view_of(ps: Vec<ApiParam>) -> Seq<ParamV> {
    Seq::new(ps@.len(), |i: int| param_view(ps@[i]))
}

pub open spec fn resp_body_view(b: ApiResponseBody) -> RespBodyV {
    RespBodyV {
        content_type: b.content_type@,
        api_type: match b.api_type {
            Some(t) => Some(ty_view(t)),
            None => None,
        },
    }
}

pub open spec fn req_body_view(b: ApiRequstBody) -> ReqBodyV {
    ReqBodyV { content_type: b.content_type@, api_type: ty_view(b.api_type) }
}

pub open spec fn route_view(r: ApiRoute) -> RouteV {
    RouteV {
        doc: r.doc@,
        name: r.name@,
        params: params_view_of(r.params),
        url: r.url@,
        request_body: match r.request_body {
            Some(b) => Some(req_body_view(b)),
            None => None,
        },
        response_body: match r.response_body {
            Some(b) => Some(resp_body_view(b)),
            None => None,
        },
        method: r.method@,
    }
}

impl View for ApiRoute {
    type V = RouteV;

    open spec fn view(&self) -> RouteV {
        route_view(*self)
    }
}

// ------------------------------------------------------------------
// Route naming
// ------------------------------------------------------------------

/// A character that separates identifier runs in a URL template.
pub open spec fn is_url_sep(c: char) -> bool {
    c == '/' || c == '-' || c == '_' || c == '.' || c == '}' || c == '{'
}

/// The identifier characters of a URL template: placeholder contents are
/// skipped, separator runs collapse to single underscores, and separators
/// at the very start or end are dropped. Returns the text built so far and
/// whether the last kept character was an underscore.
pub open spec fn url_name_loop(s: Seq<char>, i: int, skip: bool, pu: bool, acc: Seq<char>) -> (
    Seq<char>,
    bool,
)
    decreases s.len() - i,
{
    if i < 0 || i >= s.len() {
        (acc, pu)
    } else {
        let c = s[i];
        let skip1 = if c == '{' {
            true
        } else if c == '}' {
            false
        } else {
            skip
        };
        if skip1 {
            url_name_loop(s, i + 1, skip1, pu, acc)
        } else if is_url_sep(c) {
            if pu || i == 0 || i + 1 == s.len() {
                url_name_loop(s, i + 1, skip1, pu, acc)
            } else {
                url_name_loop(s, i + 1, skip1, true, acc.push('_'))
            }
        } else {
            url_name_loop(s, i + 1, skip1, false, acc.push(c))
        }
    }
}

/// The identifier a route gets: the URL template's identifier characters,
/// an underscore if none ended one, an underscore prefix when the first
/// kept character is a digit, and a verb suffix (`list` for a
/// list-returning GET, `del` for DELETE, otherwise the verb itself).
pub open spec fn spec_url_to_name(url: Seq<char>, method: Seq<char>, is_list: bool) -> Seq<char> {
    let (acc, pu) = url_name_loop(url, 0, false, false, Seq::empty());
    let base = if !pu {
        acc.push('_')
    } else {
        acc
    };
    let base2 = if base.len() > 0 && crate::text::spec_is_ascii_digit(base[0]) {
        "_"@ + base
    } else {
        base
    };
    base2 + (if is_list && method == "get"@ {
        "list"@
    } else if method == "delete"@ {
        "del"@
    } else {
        method
    })
}

/// The identifier a route gets, from its URL template, verb, and whether
/// it returns a list. The result is non-empty and does not start with a
/// digit.
pub fn url_to_name(url: &str, method: &str, is_list: bool) -> (r: String)
    ensures
        r@ == spec_url_to_name(url@, method@, is_list),
        r@.len() > 0,
        !crate::text::spec_is_ascii_digit(r@[0]),
{
    let cc = url.unicode_len();
    let mut name = String::new();
    let mut pu = false;
    let mut skip = false;
    let mut i: usize = 0;
    while i < cc
        invariant
            i <= cc,
            cc == url@.len(),
            pu ==> name@.len() > 0,
            url_name_loop(url@, 0, false, false, Seq::empty()) == url_name_loop(
                url@,
                i as int,
                skip,
                pu,
                name@,
            ),
        decreases cc - i,
    {
        let c = url.get_char(i);
        if c == '{' {
            skip = true;
        }
        if c == '}' {
            skip = false;
        }
        if !skip {
            if c == '/' || c == '-' || c == '_' || c == '.' || c == '}' || c == '{' {
                if !(pu || i == 0 || i + 1 == cc) {
                    pu = true;
                    push_char(&mut name, '_');
                }
            } else {
                pu = false;
                push_char(&mut name, c);
            }
        }
        i += 1;
    }
    if !pu {
        push_char(&mut name, '_');
    }
    let ghost base = name@;
    let first = name.as_str().get_char(0);
    if crate::text::is_ascii_digit_char(first) {
        let mut prefixed = "_".to_owned();
        prefixed.append(name.as_str());
        name = prefixed;
    }
    proof {
        reveal_strlit("_");
        assert(!crate::text::spec_is_ascii_digit(name@[0]));
    }
    if is_list && crate::tables::str_eq(method, "get") {
        name.append("list");
    } else if crate::tables::str_eq(method, "delete") {
        name.append("del");
    } else {
        name.append(method);
    }
    name
}

// ------------------------------------------------------------------
// Route resolution
// ------------------------------------------------------------------

/// The declared success response, if its entry is inline.
pub open spec fn spec_find_200(responses: Seq<(Seq<char>, RespOrV)>) -> Option<ResponseV>
    decreases responses.len(),
{
    if responses.len() == 0 {
        None
    } else if responses[0].0 == "200"@ {
        match responses[0].1 {
            RespOrV::T(t) => Some(t),
            RespOrV::Ref(_) => None,
        }
    } else {
        spec_find_200(responses.drop_first())
    }
}

/// Resolves the success response into a response body: no response or no
/// content means no body; otherwise the first declared content type is
/// used and its schema, if any, is resolved.
pub open spec fn spec_resolve_response(
    schemas: Map<Seq<char>, RefOrV>,
    res: Option<ResponseV>,
    memo: Map<Seq<char>, crate::ir::TyV>,
) -> (Result<Option<RespBodyV>, ErrV>, Map<Seq<char>, crate::ir::TyV>) {
    match res {
        None => (Ok(None), memo),
        Some(r) => {
            if r.content.len() == 0 {
                (Ok(None), memo)
            } else {
                let (ct, c) = r.content[0];
                match c.schema {
                    None => (Ok(Some(RespBodyV { content_type: ct, api_type: None })), memo),
                    Some(v) => {
                        let (rr, m1) = spec_resolve(schemas, None, v, Set::empty(), memo);
                        match rr {
                            Ok(t) => (
                                Ok(Some(RespBodyV { content_type: ct, api_type: Some(t) })),
                                m1,
                            ),
                            Err(e) => (Err(e), m1),
                        }
                    },
                }
            }
        },
    }
}

/// Resolves the declared parameters in order; a parameter without a schema
/// is a fatal error.
pub open spec fn spec_resolve_params(
    schemas: Map<Seq<char>, RefOrV>,
    params: Seq<ParameterV>,
    memo: Map<Seq<char>, crate::ir::TyV>,
) -> (Result<Seq<ParamV>, ErrV>, Map<Seq<char>, crate::ir::TyV>)
    decreases params.len(),
{
    if params.len() == 0 {
        (Ok(Seq::empty()), memo)
    } else {
        let p = params[0];
        match p.schema {
            None => (Err(ErrV::MissingParameterSchema), memo),
            Some(v) => {
                let (rr, m1) = spec_resolve(schemas, None, v, Set::empty(), memo);
                match rr {
                    Ok(t) => {
                        let (rest, m2) = spec_resolve_params(schemas, params.drop_first(), m1);
                        match rest {
                            Ok(ps) => (
                                Ok(
                                    seq![
                                        ParamV {
                                            name: p.name,
                                            param_in: param_in_view(p.parameter_in),
                                            required: p.required,
                                            api_type: t,
                                        },
                                    ] + ps,
                                ),
                                m2,
                            ),
                            Err(e) => (Err(e), m2),
                        }
                    },
                    Err(e) => (Err(e), m1),
                }
            },
        }
    }
}

/// Resolves the declared request body: exactly one content-type entry with
/// a schema is accepted; more than one is an explicit error.
pub open spec fn spec_resolve_reqbody(
    schemas: Map<Seq<char>, RefOrV>,
    rb: Option<RequestBodyV>,
    memo: Map<Seq<char>, crate::ir::TyV>,
) -> (Result<Option<ReqBodyV>, ErrV>, Map<Seq<char>, crate::ir::TyV>) {
    match rb {
        None => (Ok(None), memo),
        Some(b) => {
            if b.content.len() == 0 {
                (Err(ErrV::UnsupportedSchema("request body content"@)), memo)
            } else if b.content.len() > 1 {
                (Err(ErrV::MultipleRequestContentTypes), memo)
            } else {
                let (ct, c) = b.content[0];
                match c.schema {
                    None => (Err(ErrV::UnsupportedSchema("request body schema"@)), memo),
                    Some(v) => {
                        let (rr, m1) = spec_resolve(schemas, None, v, Set::empty(), memo);
                        match rr {
                            Ok(t) => (
                                Ok(Some(ReqBodyV { content_type: ct, api_type: t })),
                                m1,
                            ),
                            Err(e) => (Err(e), m1),
                        }
                    },
                }
            }
        },
    }
}

/// Whether a resolved response body is a list.
pub open spec fn spec_is_list(rb: Option<RespBodyV>) -> bool {
    match rb {
        Some(b) => match b.api_type {
            Some(t) => t.kind is Array,
            None => false,
        },
        None => false,
    }
}

/// The doc text of a route: summary and description joined by a newline.
pub open spec fn spec_route_doc(op: OperationV) -> Seq<char> {
    (match op.summary {
        Some(s) => s,
        None => Seq::empty(),
    }) + "\n"@ + (match op.description {
        Some(s) => s,
        None => Seq::empty(),
    })
}

/// Resolves one operation into a route: success response first, then the
/// parameters, then the request body, threading the reference table
/// through in that order.
#[verifier::opaque]
pub open spec fn spec_resolve_route(
    schemas: Map<Seq<char>, RefOrV>,
    url: Seq<char>,
    method: Seq<char>,
    op: OperationV,
    memo: Map<Seq<char>, crate::ir::TyV>,
) -> (Result<RouteV, ErrV>, Map<Seq<char>, crate::ir::TyV>) {
    let res = spec_find_200(op.responses);
    let (rbr, m1) = spec_resolve_response(schemas, res, memo);
    match rbr {
        Err(e) => (Err(e), m1),
        Ok(rb) => {
            let is_list = spec_is_list(rb);
            let (psr, m2) = spec_resolve_params(
                schemas,
                match op.parameters {
                    Some(ps) => ps,
                    None => Seq::empty(),
                },
                m1,
            );
            match psr {
                Err(e) => (Err(e), m2),
                Ok(ps) => {
                    let (qbr, m3) = spec_resolve_reqbody(schemas, op.request_body, m2);
                    match qbr {
                        Err(e) => (Err(e), m3),
                        Ok(qb) => (
                            Ok(
                                RouteV {
                                    doc: spec_route_doc(op),
                                    name: spec_url_to_name(url, method, is_list),
                                    params: ps,
                                    url: url,
                                    request_body: qb,
                                    response_body: rb,
                                    method: method,
                                },
                            ),
                            m3,
                        ),
                    }
                },
            }
        },
    }
}

/// The view of an executable response-body outcome.
pub open spec fn res_resp_view(r: Result<Option<ApiResponseBody>, GenError>) -> Result<
    Option<RespBodyV>,
    ErrV,
> {
    match r {
        Ok(Some(b)) => Ok(Some(resp_body_view(b))),
        Ok(None) => Ok(None),
        Err(e) => Err(err_view(e)),
    }
}

/// The view of an executable request-body outcome.
pub open spec fn res_req_view(r: Result<Option<ApiRequstBody>, GenError>) -> Result<
    Option<ReqBodyV>,
    ErrV,
> {
    match r {
        Ok(Some(b)) => Ok(Some(req_body_view(b))),
        Ok(None) => Ok(None),
        Err(e) => Err(err_view(e)),
    }
}

pub open spec fn opt_response_view(res: Option<&Response>) -> Option<ResponseV> {
    match res {
        Some(r) => Some(response_view(*r)),
        None => None,
    }
}

impl ApiResponseBody {
    /// Resolves the success response into a response body, as
    /// `spec_resolve_response` describes.
    pub fn parse_openapi(
        res: Option<&Response>,
        types: &mut TypeTable,
        schemas: &SchemaTable,
    ) -> (r: Result<Option<ApiResponseBody>, GenError>)
        ensures
            spec_resolve_response(schemas@, opt_response_view(res), old(types)@) == (
                res_resp_view(r),
                final(types)@,
            ),
    {
        let r = match res {
            None => {
                return Ok(None);
            },
            Some(r) => r,
        };
        if r.content.len() == 0 {
            return Ok(None);
        }
        let first = &r.content[0];
        proof {
            assert(contents_view(r.content)[0] == (
                r.content@[0].0@,
                content_view(r.content@[0].1),
            ));
        }
        match &first.1.schema {
            None => Ok(
                Some(ApiResponseBody { content_type: first.0.clone(), api_type: None }),
            ),
            Some(v) => {
                match ApiType::parse_openapi(None, v, AncestorSet::new(), types, schemas) {
                    Ok(t) => Ok(
                        Some(
                            ApiResponseBody {
                                content_type: first.0.clone(),
                                api_type: Some(t),
                            },
                        ),
                    ),
                    Err(e) => Err(e),
                }
            },
        }
    }
}

impl ApiRequstBody {
    /// Resolves the declared request body, as `spec_resolve_reqbody`
    /// describes: exactly one content-type entry is accepted.
    pub fn parse_openapi(
        rb: &Option<RequestBody>,
        types: &mut TypeTable,
        schemas: &SchemaTable,
    ) -> (r: Result<Option<ApiRequstBody>, GenError>)
        ensures
            spec_resolve_reqbody(
                schemas@,
                match *rb {
                    Some(b) => Some(request_body_view(b)),
                    None => None,
                },
                old(types)@,
            ) == (res_req_view(r), final(types)@),
    {
        let b = match rb {
            None => {
                return Ok(None);
            },
            Some(b) => b,
        };
        if b.content.len() == 0 {
            return Err(GenError::UnsupportedSchema("request body content".to_owned()));
        }
        if b.content.len() > 1 {
            return Err(GenError::MultipleRequestContentTypes);
        }
        let first = &b.content[0];
        proof {
            assert(contents_view(b.content)[0] == (
                b.content@[0].0@,
                content_view(b.content@[0].1),
            ));
        }
        match &first.1.schema {
            None => Err(GenError::UnsupportedSchema("request body schema".to_owned())),
            Some(v) => {
                match ApiType::parse_openapi(None, v, AncestorSet::new(), types, schemas) {
                    Ok(t) => Ok(
                        Some(ApiRequstBody { content_type: first.0.clone(), api_type: t }),
                    ),
                    Err(e) => Err(e),
                }
            },
        }
    }
}

/// The first inline entry declared under status code 200, if any.
fn find_200(responses: &Vec<(String, RefOr<Response>)>) -> (r: Option<&Response>)
    ensures
        spec_find_200(
            Seq::new(
                responses@.len(),
                |i: int| (responses@[i].0@, resp_or_view(responses@[i].1)),
            ),
        ) == opt_response_view(r),
{
    let ghost rv = Seq::new(
        responses@.len(),
        |i: int| (responses@[i].0@, resp_or_view(responses@[i].1)),
    );
    let mut i: usize = 0;
    proof {
        assert(rv.skip(0) =~= rv);
    }
    while i < responses.len()
        invariant
            i <= responses@.len(),
            rv == Seq::new(
                responses@.len(),
                |j: int| (responses@[j].0@, resp_or_view(responses@[j].1)),
            ),
            rv.len() == responses@.len(),
            spec_find_200(rv) == spec_find_200(rv.skip(i as int)),
        decreases responses@.len() - i,
    {
        let entry = &responses[i];
        proof {
            assert(rv[i as int] == (
                responses@[i as int].0@,
                resp_or_view(responses@[i as int].1),
            ));
            assert(rv.skip(i as int)[0] == rv[i as int]);
            assert(rv.skip(i as int).drop_first() =~= rv.skip(i as int + 1));
        }
        if crate::tables::str_eq(entry.0.as_str(), "200") {
            match &entry.1 {
                RefOr::T(t) => {
                    return Some(t);
                },
                RefOr::Ref(_) => {
                    return None;
                },
            }
        }
        i += 1;
    }
    proof {
        assert(rv.skip(responses@.len() as int) =~= Seq::<(Seq<char>, RespOrV)>::empty());
    }
    None
}

/// Resolves the declared parameters in order, as `spec_resolve_params`
/// describes.
fn parse_params(prs: &Vec<Parameter>, types: &mut TypeTable, schemas: &SchemaTable) -> (r: Result<
    Vec<ApiParam>,
    GenError,
>)
    ensures
        ({
            let pv = Seq::new(prs@.len(), |i: int| parameter_view(prs@[i]));
            let (sr, sm) = spec_resolve_params(schemas@, pv, old(types)@);
            final(types)@ == sm && sr == match r {
                Ok(ps) => Ok(params_view_of(ps)),
                Err(e) => Err(err_view(e)),
            }
        }),
{
    let ghost pv = Seq::new(prs@.len(), |i: int| parameter_view(prs@[i]));
    let mut params: Vec<ApiParam> = Vec::new();
    let mut i: usize = 0;
    proof {
        assert(pv.skip(0) =~= pv);
        assert(params_view_of(params) =~= Seq::<ParamV>::empty());
        let (ir, im) = spec_resolve_params(schemas@, pv, types@);
        match ir {
            Ok(rest) => {
                assert(params_view_of(params) + rest =~= rest);
            },
            Err(_) => (),
        }
    }
    while i < prs.len()
        invariant
            i <= prs@.len(),
            pv == Seq::new(prs@.len(), |j: int| parameter_view(prs@[j])),
            pv.len() == prs@.len(),
            params@.len() == i as int,
            ({
                let (sr, sm) = spec_resolve_params(schemas@, pv, old(types)@);
                let (ir, im) = spec_resolve_params(schemas@, pv.skip(i as int), types@);
                sm == im && sr == match ir {
                    Ok(rest) => Ok(params_view_of(params) + rest),
                    Err(e) => Err(e),
                }
            }),
        decreases prs@.len() - i,
    {
        let p = &prs[i];
        proof {
            assert(pv[i as int] == parameter_view(prs@[i as int]));
            assert(pv.skip(i as int)[0] == pv[i as int]);
            assert(pv.skip(i as int).drop_first() =~= pv.skip(i as int + 1));
        }
        let psh = match &p.schema {
            None => {
                return Err(GenError::MissingParameterSchema);
            },
            Some(psh) => psh,
        };
        let t = match ApiType::parse_openapi(None, psh, AncestorSet::new(), types, schemas) {
            Ok(t) => t,
            Err(e) => {
                return Err(e);
            },
        };
        let ghost params_prev = params;
        params.push(
            ApiParam {
                name: p.name.clone(),
                required: p.required,
                param_in: p.parameter_in.into(),
                api_type: t,
            },
        );
        i += 1;
        proof {
            assert(params_view_of(params) =~= params_view_of(params_prev).push(
                param_view(params@.last()),
            ));
            let (ir_new, im_new) = spec_resolve_params(schemas@, pv.skip(i as int), types@);
            match ir_new {
                Ok(rest) => {
                    assert(params_view_of(params_prev) + (seq![param_view(params@.last())]
                        + rest) =~= params_view_of(params) + rest);
                },
                Err(_) => (),
            }
        }
    }
    proof {
        assert(pv.skip(prs@.len() as int) =~= Seq::<ParameterV>::empty());
    }
    Ok(params)
}

impl ApiRoute {
    /// Resolves one operation into a route, as `spec_resolve_route`
    /// describes.
    #[verifier::rlimit(30)]
    pub fn parse_openapi(
        url: &str,
        method: &str,
        op: &Operation,
        types: &mut TypeTable,
        schemas: &SchemaTable,
    ) -> (r: Result<ApiRoute, GenError>)
        ensures
            spec_resolve_route(schemas@, url@, method@, op@, old(types)@) == (
                match r {
                    Ok(rt) => Ok(route_view(rt)),
                    Err(e) => Err(err_view(e)),
                },
                final(types)@,
            ),
    {
        proof {
            reveal(spec_resolve_route);
        }
        let res = find_200(&op.responses);
        let rb = match ApiResponseBody::parse_openapi(res, types, schemas) {
            Ok(rb) => rb,
            Err(e) => {
                return Err(e);
            },
        };
        let is_list = match &rb {
            Some(b) => match &b.api_type {
                Some(t) => matches!(t.kind, ApiKind::Array(_)),
                None => false,
            },
            None => false,
        };
        proof {
            match &rb {
                Some(b) => match &b.api_type {
                    Some(t) => {
                        crate::ir::lemma_kind_view_variant(t.kind);
                    },
                    None => (),
                },
                None => (),
            }
        }

        let params = match &op.parameters {
            None => {
                let ps: Vec<ApiParam> = Vec::new();
                proof {
                    assert(params_view_of(ps) =~= Seq::<ParamV>::empty());
                }
                ps
            },
            Some(prs) => {
                match parse_params(prs, types, schemas) {
                    Ok(ps) => ps,
                    Err(e) => {
                        return Err(e);
                    },
                }
            },
        };

        let request_body = match ApiRequstBody::parse_openapi(&op.request_body, types, schemas) {
            Ok(b) => b,
            Err(e) => {
                return Err(e);
            },
        };

        let name = url_to_name(url, method, is_list);
        let mut doc = match &op.summary {
            Some(s) => s.clone(),
            None => String::new(),
        };
        doc.append("\n");
        match &op.description {
            Some(s) => doc.append(s.as_str()),
            None => (),
        }

        Ok(
            ApiRoute {
                request_body,
                url: url.to_owned(),
                name,
                params,
                method: method.to_owned(),
                response_body: rb,
                doc,
            },
        )
    }
}

} // verus!
