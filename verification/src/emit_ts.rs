//! The TypeScript emitter: renders IR types as TypeScript type syntax.
//!
//! The `ts_*` spec functions define the rendered text of every IR shape;
//! the executable emitters are proved to produce exactly that text. They
//! are total over fully resolved IR values (no `Unknown` sentinel).

use vstd::prelude::*;

use crate::ir::{
    lemma_fields_wf_iff, lemma_tys_wf_iff, ty_view, tys_view_of, ApiKind, ApiPrim, ApiType, KindV,
    PrimV, TyV,
};
use crate::tables::str_eq;

verus! {

broadcast use vstd::seq::group_seq_axioms, vstd::std_specs::vec::group_vec_axioms;

/// The TypeScript text of a primitive.
pub open spec fn ts_prim(p: PrimV, for_input: bool) -> Seq<char>
    decreases p, 1int,
{
    match p {
        PrimV::Null => "null"@,
        PrimV::Str => "string"@,
        PrimV::Int => "number"@,
        PrimV::Float => "number"@,
        PrimV::File => "File"@,
        PrimV::Bool => "boolean"@,
        PrimV::Option(t) => "("@ + ts_ref_or_body(*t, for_input) + " | null)"@,
    }
}

/// The TypeScript text of an IR node's body, ignoring its name.
pub open spec fn ts_body(tv: TyV, for_input: bool) -> Seq<char>
    decreases tv, 0int,
{
    match tv.kind {
        KindV::Prim(p) => ts_prim(p, for_input),
        KindV::Unknown => Seq::empty(),
        KindV::Ref(r) => r,
        KindV::Recursive => match tv.name {
            Some(n) => n,
            None => Seq::empty(),
        },
        KindV::StrEnum(ls) => ts_enum(ls),
        KindV::Array(a) => ts_ref_or_body(*a, for_input) + "[]"@,
        KindV::Union(ts) => ts_join(ts, "|"@, for_input),
        KindV::Combo(ts) => ts_join(ts, "&"@, for_input),
        KindV::Object(fields) => "{ "@ + ts_fields(fields, for_input) + " }"@,
        KindV::Tuple(ts) => "[ "@ + ts_elems(ts, for_input) + " ]"@,
    }
}

/// The TypeScript text of an IR node where it is used: its name if it has
/// one, otherwise its body. An anonymous union or intersection is
/// parenthesized, so that its alternatives keep their grouping inside a
/// surrounding `&`, `|` or array suffix.
pub open spec fn ts_ref_or_body(tv: TyV, for_input: bool) -> Seq<char>
    decreases tv, 1int,
{
    match tv.name {
        Some(n) => n,
        None => if tv.kind is Union || tv.kind is Combo {
            "("@ + ts_body(tv, for_input) + ")"@
        } else {
            ts_body(tv, for_input)
        },
    }
}

/// Union or intersection members joined by a separator.
pub open spec fn ts_join(ts: Seq<TyV>, sep: Seq<char>, for_input: bool) -> Seq<char>
    decreases ts, 2int,
{
    if ts.len() == 0 {
        Seq::empty()
    } else if ts.len() == 1 {
        ts_ref_or_body(ts[0], for_input)
    } else {
        ts_join(ts.drop_last(), sep, for_input) + sep + ts_ref_or_body(ts.last(), for_input)
    }
}

/// Enumerated string literals, each quoted, joined by `|`.
pub open spec fn ts_enum(ls: Seq<Seq<char>>) -> Seq<char>
    decreases ls.len(),
{
    if ls.len() == 0 {
        Seq::empty()
    } else if ls.len() == 1 {
        "\""@ + ls[0] + "\""@
    } else {
        ts_enum(ls.drop_last()) + "|"@ + "\""@ + ls.last() + "\""@
    }
}

/// Object fields as `name:type,` runs.
pub open spec fn ts_fields(fields: Seq<(Seq<char>, TyV)>, for_input: bool) -> Seq<char>
    decreases fields, 2int,
{
    if fields.len() == 0 {
        Seq::empty()
    } else {
        ts_fields(fields.drop_last(), for_input) + fields.last().0 + ":"@ + ts_ref_or_body(
            fields.last().1,
            for_input,
        ) + ","@
    }
}

/// Tuple elements as `type,` runs.
pub open spec fn ts_elems(ts: Seq<TyV>, for_input: bool) -> Seq<char>
    decreases ts, 2int,
{
    if ts.len() == 0 {
        Seq::empty()
    } else {
        ts_elems(ts.drop_last(), for_input) + ts_ref_or_body(ts.last(), for_input) + ","@
    }
}

// ------------------------------------------------------------------
// Request wrappers
// ------------------------------------------------------------------

/// A route whose parameter and body types are fully resolved.
pub open spec fn route_wf(rv: crate::routes::RouteV) -> bool {
    &&& forall|i: int| 0 <= i < rv.params.len() ==> (#[trigger] rv.params[i].api_type).wf()
    &&& match rv.request_body {
        Some(b) => b.api_type.wf(),
        None => true,
    }
    &&& match rv.response_body {
        Some(b) => match b.api_type {
            Some(t) => t.wf(),
            None => true,
        },
        None => true,
    }
}

/// The response type and fetch expression of a route: chosen by the
/// declared response content type; no response body means `void`. A JSON
/// response without a resolved type, or an unrecognized content type, is
/// an error.
pub open spec fn ts_route_out(rb: Option<crate::routes::RespBodyV>) -> Result<
    (Seq<char>, Seq<char>),
    crate::ErrV,
> {
    match rb {
        None => Ok(("void"@, "void 0 as void"@)),
        Some(ab) => {
            if ab.content_type == "text/plain"@ {
                Ok(("string"@, "await r.text()"@))
            } else if ab.content_type == "application/octet-stream"@ {
                Ok(("ArrayBuffer"@, "await r.arrayBuffer()"@))
            } else if ab.content_type == "application/json"@ {
                match ab.api_type {
                    Some(t) => Ok((ts_ref_or_body(t, false), "await r.json()"@)),
                    None => Err(crate::ErrV::UnsupportedSchema("json response body"@)),
                }
            } else {
                Err(crate::ErrV::UnsupportedSchema(ab.content_type))
            }
        },
    }
}

/// The parameter-object entries: `name[?]:type,` runs.
pub open spec fn ts_params_inner(params: Seq<crate::routes::ParamV>) -> Seq<char>
    decreases params,
{
    if params.len() == 0 {
        Seq::empty()
    } else {
        let p = params.last();
        ts_params_inner(params.drop_last()) + p.name + (if !p.required {
            "?"@
        } else {
            Seq::empty()
        }) + ":"@ + ts_ref_or_body(p.api_type, true) + ","@
    }
}

/// All parameter names, in order.
pub open spec fn param_names(params: Seq<crate::routes::ParamV>) -> Seq<Seq<char>>
    decreases params,
{
    if params.len() == 0 {
        Seq::empty()
    } else {
        param_names(params.drop_last()).push(params.last().name)
    }
}

/// The names of the query parameters, in order.
pub open spec fn query_names(params: Seq<crate::routes::ParamV>) -> Seq<Seq<char>>
    decreases params,
{
    if params.len() == 0 {
        Seq::empty()
    } else {
        query_names(params.drop_last()) + (if params.last().param_in is Query {
            seq![params.last().name]
        } else {
            Seq::empty()
        })
    }
}

/// Names joined by commas.
pub open spec fn join_comma(names: Seq<Seq<char>>) -> Seq<char>
    decreases names,
{
    if names.len() == 0 {
        Seq::empty()
    } else if names.len() == 1 {
        names[0]
    } else {
        join_comma(names.drop_last()) + ","@ + names.last()
    }
}

/// A kind that is an atomic primitive: a primitive other than `Option`.
pub open spec fn atomic_prim(k: KindV) -> bool {
    k is Prim && !(k->Prim_0 is Option)
}

/// The raw attachment statement of one multipart field.
pub open spec fn multipart_raw(n: Seq<char>) -> Seq<char> {
    "data.set('"@ + n + "', body."@ + n + ");\n"@
}

/// The blob attachment statement of one multipart field.
pub open spec fn multipart_blob(n: Seq<char>) -> Seq<char> {
    "data.set(\n    '"@ + n + "',\n    new Blob(\n        [JSON.stringify(body."@ + n
        + ")],\n        { type: 'application/json' }\n    )\n);\n\n"@
}

/// The multipart attachment statements of a request body's fields: a
/// string or file field is attached as a raw form field; a field whose
/// type is `Option` of an atomic primitive is attached conditionally,
/// only when present; every other field is attached as a JSON-encoded
/// blob part with an explicit JSON media type.
pub open spec fn multipart_fields(fields: Seq<(Seq<char>, TyV)>) -> Seq<char>
    decreases fields,
{
    if fields.len() == 0 {
        Seq::empty()
    } else {
        let (n, t) = fields.last();
        multipart_fields(fields.drop_last()) + (if t.kind == KindV::Prim(PrimV::Str) || t.kind
            == KindV::Prim(PrimV::File) {
            multipart_raw(n)
        } else if t.kind is Prim && t.kind->Prim_0 is Option && atomic_prim(
            (*t.kind->Prim_0->Option_0).kind,
        ) {
            "body."@ + n + " && "@ + multipart_raw(n)
        } else {
            multipart_blob(n)
        })
    }
}

/// The body-input declaration, content-type header, and data statement of
/// a request body. A multipart body must be an object; an unrecognized
/// content type is an error.
pub open spec fn ts_route_req(rb: Option<crate::routes::ReqBodyV>) -> Result<
    (Seq<char>, Seq<char>, Seq<char>),
    crate::ErrV,
> {
    match rb {
        None => Ok((Seq::empty(), Seq::empty(), "let data = void 0;"@)),
        Some(b) => {
            let input_part = "body: "@ + ts_ref_or_body(b.api_type, true) + ", "@;
            let headers = if b.content_type != "multipart/form-data"@ {
                "'Content-Type': '"@ + b.content_type + "',"@
            } else {
                Seq::empty()
            };
            if b.content_type == "text/plain"@ {
                Ok((input_part, headers, "let data = body;"@))
            } else if b.content_type == "application/json"@ {
                Ok((input_part, headers, "let data = JSON.stringify(body);"@))
            } else if b.content_type == "multipart/form-data"@ {
                match b.api_type.kind {
                    KindV::Object(fields) => Ok(
                        (
                            input_part,
                            headers,
                            "let data = new FormData();\n"@ + multipart_fields(fields),
                        ),
                    ),
                    _ => Err(crate::ErrV::MultipartBodyMustBeObject),
                }
            } else {
                Err(crate::ErrV::UnsupportedSchema(b.content_type))
            }
        },
    }
}

/// The complete TypeScript request-wrapper function of a route.
#[verifier::opaque]
pub open spec fn spec_def_ts(rv: crate::routes::RouteV) -> Result<Seq<char>, crate::ErrV> {
    match ts_route_out(rv.response_body) {
        Err(e) => Err(e),
        Ok((outy, fetch_res)) => match ts_route_req(rv.request_body) {
            Err(e) => Err(e),
            Ok((body_input, headers, body)) => {
                let params_part = if rv.params.len() > 0 {
                    "params: {"@ + ts_params_inner(rv.params) + "}, "@
                } else {
                    Seq::empty()
                };
                let input = params_part + body_input + "override: Partial<ud.HttpxProps> = {}"@;
                let params_bloom = if rv.params.len() > 0 {
                    "let { "@ + join_comma(param_names(rv.params)) + " } = params;"@
                } else {
                    Seq::empty()
                };
                let qp = join_comma(query_names(rv.params));
                Ok(
                    "/**\n"@ + rv.doc + "\n*/\nexport async function "@ + rv.name + " ("@
                        + input + ") : Promise<ud.Result<"@ + outy + ">> {\n    "@
                        + params_bloom + "\n    "@ + body
                        + "\n    let ovh = override.headers || {};\n    delete override.headers;\n    let r = await ud.httpx({\n        url: `"@
                        + crate::text::spec_template_url(rv.url) + "`,\n        method: '"@
                        + crate::text::spec_upper(rv.method) + "',\n        params: { "@ + qp
                        + " },\n        headers: { "@ + headers
                        + ", ...ovh },\n        data,\n        ...override\n    })\n\n    return {\n        r: r.clone(),\n        status: r.status,\n        body: "@
                        + fetch_res + ",\n        ok(): this is ud.Ok<"@ + outy
                        + "> {\n            return this.status == 200\n        },\n        err(): this is ud.Err {\n            return !this.ok()\n        },\n    } as ud.Result<"@
                        + outy + ">\n\n}\n"@,
                )
            },
        },
    }
}

    /// Names joined by commas.
pub(crate) fn join_comma_exec(names: &Vec<String>) -> (r: String)
    ensures
        r@ == join_comma(crate::ir::strs_view_of(*names)),
{
    let ghost nv = crate::ir::strs_view_of(*names);
    let mut out = String::new();
    let mut i: usize = 0;
    proof {
        assert(nv.take(0) =~= Seq::<Seq<char>>::empty());
    }
    while i < names.len()
        invariant
            i <= names@.len(),
            nv == crate::ir::strs_view_of(*names),
            nv.len() == names@.len(),
            out@ == join_comma(nv.take(i as int)),
        decreases names@.len() - i,
    {
        proof {
            assert(nv[i as int] == names@[i as int]@);
            assert(nv.take(i as int + 1).drop_last() =~= nv.take(i as int));
            assert(nv.take(i as int + 1).last() == nv[i as int]);
        }
        if i > 0 {
            out.append(",");
        }
        out.append(names[i].as_str());
        i += 1;
    }
    proof {
        assert(nv.take(names@.len() as int) =~= nv);
    }
    out
}

impl ApiPrim {
    /// The TypeScript name of this primitive.
    pub fn ts(&self, for_input: bool) -> (r: String)
        requires
            self@.wf(),
        ensures
            r@ == ts_prim(self@, for_input),
        decreases *self, 1int,
    {
        match self {
            ApiPrim::Null => "null".to_owned(),
            ApiPrim::Str => "string".to_owned(),
            ApiPrim::Int => "number".to_owned(),
            ApiPrim::Float => "number".to_owned(),
            ApiPrim::File => "File".to_owned(),
            ApiPrim::Bool => "boolean".to_owned(),
            ApiPrim::Option(opt) => {
                let mut out = "(".to_owned();
                let inner = (**opt).ref_or_body_ts(for_input);
                out.append(inner.as_str());
                out.append(" | null)");
                out
            },
        }
    }
}

impl ApiType {
    /// The TypeScript text of this node's body, ignoring its name.
    pub fn body_ts(&self, for_input: bool) -> (r: String)
        requires
            self@.wf(),
        ensures
            r@ == ts_body(self@, for_input),
        decreases *self, 0int,
    {
        match &self.kind {
            ApiKind::Prim(p) => p.ts(for_input),
            ApiKind::Unknown => String::new(),
            ApiKind::Ref(r) => r.clone(),
            ApiKind::Recursive => match &self.name {
                Some(n) => n.clone(),
                None => String::new(),
            },
            ApiKind::StrEnum(e) => {
                let ghost ls = match self@.kind {
                    KindV::StrEnum(ls) => ls,
                    _ => arbitrary(),
                };
                let mut out = String::new();
                let mut i: usize = 0;
                while i < e.len()
                    invariant
                        i <= e@.len(),
                        ls.len() == e@.len(),
                        forall|j: int| 0 <= j < e@.len() ==> ls[j] == #[trigger] e@[j]@,
                        out@ == ts_enum(ls.take(i as int)),
                    decreases e@.len() - i,
                {
                    if i > 0 {
                        out.append("|");
                    }
                    out.append("\"");
                    out.append(e[i].as_str());
                    out.append("\"");
                    i += 1;
                    proof {
                        assert(ls.take(i as int).drop_last() =~= ls.take(i as int - 1));
                        assert(ls.take(i as int).last() == ls[i as int - 1]);
                    }
                }
                proof {
                    assert(ls.take(e@.len() as int) =~= ls);
                }
                out
            },
            ApiKind::Array(a) => {
                let mut out = (**a).ref_or_body_ts(for_input);
                out.append("[]");
                out
            },
            ApiKind::Union(u) => self.ts_join_exec(u, "|", for_input),
            ApiKind::Combo(c) => self.ts_join_exec(c, "&", for_input),
            ApiKind::Object(o) => {
                let ghost fields = crate::ir::fields_view_of(*o);
                proof {
                    assert(self@.kind == KindV::Object(fields));
                    assert(crate::ir::fields_wf(fields));
                    lemma_fields_wf_iff(fields);
                }
                let mut out = "{ ".to_owned();
                let mut i: usize = 0;
                while i < o.len()
                    invariant
                        i <= o@.len(),
                        fields == crate::ir::fields_view_of(*o),
                        fields.len() == o@.len(),
                        decreases_to!(*self => *o),
                        forall|j: int| 0 <= j < fields.len() ==> (#[trigger] fields[j].1).wf(),
                        out@ == "{ "@ + ts_fields(fields.take(i as int), for_input),
                    decreases o@.len() - i,
                {
                    let pair = &o[i];
                    proof {
                        assert(decreases_to!(*o => o@[i as int]));
                        assert(decreases_to!(o@[i as int] => o@[i as int].1));
                        assert(fields[i as int] == (o@[i as int].0@, ty_view(o@[i as int].1)));
                        assert(fields[i as int].1.wf());
                    }
                    out.append(pair.0.as_str());
                    out.append(":");
                    let piece = pair.1.ref_or_body_ts(for_input);
                    out.append(piece.as_str());
                    out.append(",");
                    i += 1;
                    proof {
                        assert(fields.take(i as int).drop_last() =~= fields.take(i as int - 1));
                        assert(fields.take(i as int).last() == fields[i as int - 1]);
                    }
                }
                proof {
                    assert(fields.take(o@.len() as int) =~= fields);
                }
                out.append(" }");
                out
            },
            ApiKind::Tuple(t) => {
                let ghost elems = tys_view_of(*t);
                proof {
                    assert(self@.kind == KindV::Tuple(elems));
                    assert(crate::ir::tys_wf(elems));
                    lemma_tys_wf_iff(elems);
                }
                let mut out = "[ ".to_owned();
                let mut i: usize = 0;
                while i < t.len()
                    invariant
                        i <= t@.len(),
                        elems == tys_view_of(*t),
                        elems.len() == t@.len(),
                        decreases_to!(*self => *t),
                        forall|j: int| 0 <= j < elems.len() ==> (#[trigger] elems[j]).wf(),
                        out@ == "[ "@ + ts_elems(elems.take(i as int), for_input),
                    decreases t@.len() - i,
                {
                    proof {
                        assert(decreases_to!(*t => t@[i as int]));
                        assert(elems[i as int] == ty_view(t@[i as int]));
                        assert(elems[i as int].wf());
                    }
                    let piece = t[i].ref_or_body_ts(for_input);
                    out.append(piece.as_str());
                    out.append(",");
                    i += 1;
                    proof {
                        assert(elems.take(i as int).drop_last() =~= elems.take(i as int - 1));
                        assert(elems.take(i as int).last() == elems[i as int - 1]);
                    }
                }
                proof {
                    assert(elems.take(t@.len() as int) =~= elems);
                }
                out.append(" ]");
                out
            },
        }
    }

    /// Member list joined by a separator.
    fn ts_join_exec(&self, ts: &Vec<ApiType>, sep: &str, for_input: bool) -> (r: String)
        requires
            self@.wf(),
            decreases_to!(*self => *ts),
            self@.kind is Union && tys_view_of(*ts) == self@.kind->Union_0 || self@.kind is Combo
                && tys_view_of(*ts) == self@.kind->Combo_0,
        ensures
            r@ == ts_join(tys_view_of(*ts), sep@, for_input),
        decreases *self, 0int, 0int,
    {
        let ghost elems = tys_view_of(*ts);
        proof {
            assert(crate::ir::tys_wf(elems));
            lemma_tys_wf_iff(elems);
        }
        let mut out = String::new();
        let mut i: usize = 0;
        while i < ts.len()
            invariant
                i <= ts@.len(),
                elems == tys_view_of(*ts),
                elems.len() == ts@.len(),
                forall|j: int| 0 <= j < elems.len() ==> (#[trigger] elems[j]).wf(),
                decreases_to!(*self => *ts),
                out@ == ts_join(elems.take(i as int), sep@, for_input),
            decreases ts@.len() - i,
        {
            proof {
                assert(decreases_to!(*ts => ts@[i as int]));
                assert(elems[i as int] == ty_view(ts@[i as int]));
                assert(elems[i as int].wf());
            }
            if i > 0 {
                out.append(sep);
            }
            let piece = ts[i].ref_or_body_ts(for_input);
            out.append(piece.as_str());
            i += 1;
            proof {
                assert(elems.take(i as int).drop_last() =~= elems.take(i as int - 1));
                assert(elems.take(i as int).last() == elems[i as int - 1]);
            }
        }
        proof {
            assert(elems.take(ts@.len() as int) =~= elems);
        }
        out
    }

    /// The TypeScript text of this node where it is used: its name if it
    /// has one, otherwise its body, parenthesized for an anonymous union
    /// or intersection.
    pub fn ref_or_body_ts(&self, for_input: bool) -> (r: String)
        requires
            self@.wf(),
        ensures
            r@ == ts_ref_or_body(self@, for_input),
        decreases *self, 1int,
    {
        if let Some(n) = &self.name {
            return n.clone();
        }
        proof {
            crate::ir::lemma_kind_view_variant(self.kind);
        }
        let grouped = matches!(&self.kind, ApiKind::Union(_) | ApiKind::Combo(_));
        let body = self.body_ts(for_input);
        if grouped {
            let mut out = "(".to_owned();
            out.append(body.as_str());
            out.append(")");
            out
        } else {
            body
        }
    }
}

/// How one multipart field is attached: `1` raw, `2` raw but guarded on
/// presence, `3` as a JSON blob part.
pub(crate) fn multipart_class(t: &ApiType) -> (r: u8)
    ensures
        (r == 1) == (ty_view(*t).kind == KindV::Prim(PrimV::Str) || ty_view(*t).kind
            == KindV::Prim(PrimV::File)),
        (r == 2) == (!(ty_view(*t).kind == KindV::Prim(PrimV::Str) || ty_view(*t).kind
            == KindV::Prim(PrimV::File)) && ty_view(*t).kind is Prim && ty_view(
            *t,
        ).kind->Prim_0 is Option && atomic_prim((*ty_view(*t).kind->Prim_0->Option_0).kind)),
        r == 1 || r == 2 || r == 3,
{
    proof {
        crate::ir::lemma_kind_view_variant(t.kind);
    }
    match &t.kind {
        ApiKind::Prim(p) => {
            proof {
                crate::ir::lemma_prim_view_variant(*p);
            }
            match p {
                ApiPrim::Str => 1,
                ApiPrim::File => 1,
                ApiPrim::Option(inner) => {
                    proof {
                        crate::ir::lemma_kind_view_variant(inner.kind);
                    }
                    match &inner.kind {
                        ApiKind::Prim(q) => {
                            proof {
                                crate::ir::lemma_prim_view_variant(*q);
                            }
                            if matches!(q, ApiPrim::Option(_)) {
                                3
                            } else {
                                2
                            }
                        },
                        _ => 3,
                    }
                },
                _ => 3,
            }
        },
        _ => 3,
    }
}

impl crate::routes::ApiRoute {
    /// The TypeScript request-wrapper function of this route, exactly as
    /// `spec_def_ts` describes. Fails when the response or request content
    /// type is unrecognized, a JSON response carries no resolved type, or
    /// a multipart body is not an object.
    #[verifier::rlimit(80)]
    pub fn def_ts(&self) -> (r: Result<String, crate::GenError>)
        requires
            route_wf(self@),
        ensures
            match r {
                Ok(s) => spec_def_ts(self@) == Ok::<Seq<char>, crate::ErrV>(s@),
                Err(e) => spec_def_ts(self@) == Err::<Seq<char>, crate::ErrV>(
                    crate::err_view(e),
                ),
            },
    {
        proof {
            reveal(spec_def_ts);
        }
        // Response type and fetch expression.
        let mut outy: String;
        let fetch_res: &str;
        match &self.response_body {
            None => {
                outy = "void".to_owned();
                fetch_res = "void 0 as void";
            },
            Some(ab) => {
                if str_eq(ab.content_type.as_str(), "text/plain") {
                    outy = "string".to_owned();
                    fetch_res = "await r.text()";
                } else if str_eq(ab.content_type.as_str(), "application/octet-stream") {
                    outy = "ArrayBuffer".to_owned();
                    fetch_res = "await r.arrayBuffer()";
                } else if str_eq(ab.content_type.as_str(), "application/json") {
                    match &ab.api_type {
                        Some(t) => {
                            outy = t.ref_or_body_ts(false);
                            fetch_res = "await r.json()";
                        },
                        None => {
                            return Err(
                                crate::GenError::UnsupportedSchema(
                                    "json response body".to_owned(),
                                ),
                            );
                        },
                    }
                } else {
                    return Err(crate::GenError::UnsupportedSchema(ab.content_type.clone()));
                }
            },
        }

        // Parameter object, parameter names, query parameter names.
        let ghost pv = crate::routes::params_view_of(self.params);
        let mut pi = String::new();
        let mut bloom: Vec<String> = Vec::new();
        let mut qp: Vec<String> = Vec::new();
        let mut i: usize = 0;
        proof {
            assert(pv.take(0) =~= Seq::<crate::routes::ParamV>::empty());
            assert(crate::ir::strs_view_of(bloom) =~= param_names(pv.take(0)));
            assert(crate::ir::strs_view_of(qp) =~= query_names(pv.take(0)));
        }
        while i < self.params.len()
            invariant
                i <= self.params@.len(),
                pv == crate::routes::params_view_of(self.params),
                pv.len() == self.params@.len(),
                forall|j: int| 0 <= j < pv.len() ==> (#[trigger] pv[j].api_type).wf(),
                pi@ == ts_params_inner(pv.take(i as int)),
                crate::ir::strs_view_of(bloom) == param_names(pv.take(i as int)),
                crate::ir::strs_view_of(qp) == query_names(pv.take(i as int)),
            decreases self.params@.len() - i,
        {
            let p = &self.params[i];
            proof {
                assert(pv[i as int] == crate::routes::param_view(self.params@[i as int]));
                assert(pv[i as int].api_type.wf());
                assert(pv.take(i as int + 1).drop_last() =~= pv.take(i as int));
                assert(pv.take(i as int + 1).last() == pv[i as int]);
            }
            let ghost bloom_prev = crate::ir::strs_view_of(bloom);
            bloom.push(p.name.clone());
            proof {
                assert(crate::ir::strs_view_of(bloom) =~= bloom_prev.push(pv[i as int].name));
            }
            if p.param_in.is_query() {
                let ghost qp_prev = crate::ir::strs_view_of(qp);
                qp.push(p.name.clone());
                proof {
                    assert(crate::ir::strs_view_of(qp) =~= qp_prev.push(pv[i as int].name));
                    assert(query_names(pv.take(i as int)) + seq![pv[i as int].name]
                        =~= query_names(pv.take(i as int)).push(pv[i as int].name));
                }
            } else {
                proof {
                    assert(query_names(pv.take(i as int)) + Seq::<Seq<char>>::empty()
                        =~= query_names(pv.take(i as int)));
                }
            }
            pi.append(p.name.as_str());
            if !p.required {
                pi.append("?");
            }
            pi.append(":");
            let piece = p.api_type.ref_or_body_ts(true);
            pi.append(piece.as_str());
            pi.append(",");
            i += 1;
        }
        proof {
            assert(pv.take(self.params@.len() as int) =~= pv);
        }

        // Request body: input entry, header, data statement.
        let mut body_input = String::new();
        let mut headers = String::new();
        let mut body: String;
        match &self.request_body {
            None => {
                body = "let data = void 0;".to_owned();
            },
            Some(rb) => {
                body_input.append("body: ");
                let piece = rb.api_type.ref_or_body_ts(true);
                body_input.append(piece.as_str());
                body_input.append(", ");
                if !str_eq(rb.content_type.as_str(), "multipart/form-data") {
                    headers.append("'Content-Type': '");
                    headers.append(rb.content_type.as_str());
                    headers.append("',");
                }
                if str_eq(rb.content_type.as_str(), "text/plain") {
                    body = "let data = body;".to_owned();
                } else if str_eq(rb.content_type.as_str(), "application/json") {
                    body = "let data = JSON.stringify(body);".to_owned();
                } else if str_eq(rb.content_type.as_str(), "multipart/form-data") {
                    match &rb.api_type.kind {
                        ApiKind::Object(obj) => {
                            let ghost fields = crate::ir::fields_view_of(*obj);
                            proof {
                                assert(ty_view(rb.api_type).kind == KindV::Object(fields));
                                assert(crate::ir::fields_wf(fields));
                            }
                            body = "let data = new FormData();\n".to_owned();
                            let mut j: usize = 0;
                            proof {
                                assert(fields.take(0) =~= Seq::<(Seq<char>, TyV)>::empty());
                            }
                            while j < obj.len()
                                invariant
                                    j <= obj@.len(),
                                    fields == crate::ir::fields_view_of(*obj),
                                    fields.len() == obj@.len(),
                                    body@ == "let data = new FormData();\n"@
                                        + multipart_fields(fields.take(j as int)),
                                decreases obj@.len() - j,
                            {
                                let f = &obj[j];
                                proof {
                                    assert(fields[j as int] == (
                                        obj@[j as int].0@,
                                        ty_view(obj@[j as int].1),
                                    ));
                                    crate::ir::lemma_kind_view_variant(obj@[j as int].1.kind);
                                    assert(fields.take(j as int + 1).drop_last() =~= fields.take(
                                        j as int,
                                    ));
                                    assert(fields.take(j as int + 1).last() == fields[j as int]);
                                }
                                let class = multipart_class(&f.1);
                                proof {
                                    assert(fields[j as int].1.kind == ty_view(f.1).kind);
                                }
                                if class == 1 {
                                    body.append("data.set('");
                                    body.append(f.0.as_str());
                                    body.append("', body.");
                                    body.append(f.0.as_str());
                                    body.append(");\n");
                                } else if class == 2 {
                                    body.append("body.");
                                    body.append(f.0.as_str());
                                    body.append(" && ");
                                    body.append("data.set('");
                                    body.append(f.0.as_str());
                                    body.append("', body.");
                                    body.append(f.0.as_str());
                                    body.append(");\n");
                                } else {
                                    body.append("data.set(\n    '");
                                    body.append(f.0.as_str());
                                    body.append("',\n    new Blob(\n        [JSON.stringify(body.");
                                    body.append(f.0.as_str());
                                    body.append(
                                        ")],\n        { type: 'application/json' }\n    )\n);\n\n",
                                    );
                                }
                                j += 1;
                                proof {
                                    assert(body@ =~= "let data = new FormData();\n"@
                                        + multipart_fields(fields.take(j as int)));
                                }
                            }
                            proof {
                                assert(fields.take(obj@.len() as int) =~= fields);
                            }
                        },
                        _ => {
                            proof {
                                crate::ir::lemma_kind_view_variant(rb.api_type.kind);
                            }
                            return Err(crate::GenError::MultipartBodyMustBeObject);
                        },
                    }
                } else {
                    return Err(crate::GenError::UnsupportedSchema(rb.content_type.clone()));
                }
            },
        }

        // Assemble the wrapper.
        let mut input = String::new();
        if self.params.len() > 0 {
            input.append("params: {");
            input.append(pi.as_str());
            input.append("}, ");
        }
        input.append(body_input.as_str());
        input.append("override: Partial<ud.HttpxProps> = {}");

        let mut params_bloom = String::new();
        if self.params.len() > 0 {
            params_bloom.append("let { ");
            let joined = join_comma_exec(&bloom);
            params_bloom.append(joined.as_str());
            params_bloom.append(" } = params;");
        }
        let qps = join_comma_exec(&qp);
        let ts_url = crate::text::template_url(self.url.as_str());
        let mu = crate::text::ascii_upper(self.method.as_str());

        let mut out = "/**\n".to_owned();
        out.append(self.doc.as_str());
        out.append("\n*/\nexport async function ");
        out.append(self.name.as_str());
        out.append(" (");
        out.append(input.as_str());
        out.append(") : Promise<ud.Result<");
        out.append(outy.as_str());
        out.append(">> {\n    ");
        out.append(params_bloom.as_str());
        out.append("\n    ");
        out.append(body.as_str());
        out.append(
            "\n    let ovh = override.headers || {};\n    delete override.headers;\n    let r = await ud.httpx({\n        url: `",
        );
        out.append(ts_url.as_str());
        out.append("`,\n        method: '");
        out.append(mu.as_str());
        out.append("',\n        params: { ");
        out.append(qps.as_str());
        out.append(" },\n        headers: { ");
        out.append(headers.as_str());
        out.append(
            ", ...ovh },\n        data,\n        ...override\n    })\n\n    return {\n        r: r.clone(),\n        status: r.status,\n        body: ",
        );
        out.append(fetch_res);
        out.append(",\n        ok(): this is ud.Ok<");
        out.append(outy.as_str());
        out.append(
            "> {\n            return this.status == 200\n        },\n        err(): this is ud.Err {\n            return !this.ok()\n        },\n    } as ud.Result<",
        );
        out.append(outy.as_str());
        out.append(">\n\n}\n");
        Ok(out)
    }
}

} // verus!
