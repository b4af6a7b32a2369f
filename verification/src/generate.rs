//! The generation pass: a whole document rendered as one TypeScript text.
//!
//! One pass resolves every named schema (filling the reference table) and
//! emits a type declaration per inline, non-suppressed definition; a second
//! pass resolves every operation and emits its request wrapper. Iteration
//! follows declaration order throughout, so byte-identical input documents
//! produce byte-identical output.

use vstd::prelude::*;

use crate::emit_ts::{route_wf, spec_def_ts, ts_body};
use crate::ir::{ApiType, TyV};
use crate::raw::{Ref, RefOr, RefOrV};
use crate::resolve::{
    lemma_resolve_wf, spec_resolve, wf_memo,
};
use crate::routes::{
    operation_view, spec_find_200, spec_resolve_params, spec_resolve_response,
    spec_resolve_route, ApiRoute, OpenApi, Operation, OperationV, PathItem,
};
use crate::tables::{
    lemma_names_set_finite, lemma_schema_entries_map_finite, schema_entries_map, AncestorSet,
    SchemaTable, TypeTable,
};
use crate::{err_view, ErrV, GenError};

verus! {

broadcast use
    vstd::seq::group_seq_axioms,
    vstd::std_specs::vec::group_vec_axioms,
    vstd::map::group_map_axioms,
    vstd::set::group_set_axioms;

/// Ghost mirror of `PathItem`.
pub ghost struct PathItemV {
    pub get: Option<OperationV>,
    pub put: Option<OperationV>,
    pub post: Option<OperationV>,
    pub patch: Option<OperationV>,
    pub delete: Option<OperationV>,
}

pub open spec fn opt_op_view(op: Option<Operation>) -> Option<OperationV> {
    match op {
        Some(o) => Some(operation_view(o)),
        None => None,
    }
}

pub open spec fn path_item_view(p: PathItem) -> PathItemV {
    PathItemV {
        get: opt_op_view(p.get),
        put: opt_op_view(p.put),
        post: opt_op_view(p.post),
        patch: opt_op_view(p.patch),
        delete: opt_op_view(p.delete),
    }
}

/// Ghost mirror of `OpenApi`.
pub ghost struct OpenApiV {
    pub paths: Seq<(Seq<char>, PathItemV)>,
    pub schemas: Seq<(Seq<char>, RefOrV)>,
}

pub open spec fn openapi_view(oa: OpenApi) -> OpenApiV {
    OpenApiV {
        paths: Seq::new(
            oa.paths@.len(),
            |i: int| (oa.paths@[i].0@, path_item_view(oa.paths@[i].1)),
        ),
        schemas: Seq::new(
            oa.components.schemas@.len(),
            |i: int| (
                oa.components.schemas@[i].0@,
                crate::raw::ref_or_view(oa.components.schemas@[i].1),
            ),
        ),
    }
}

impl View for OpenApi {
    type V = OpenApiV;

    open spec fn view(&self) -> OpenApiV {
        openapi_view(*self)
    }
}

/// Whether a schema-table entry produces a standalone declaration: it is
/// inline and not marked user-defined.
pub open spec fn emits_decl(v: RefOrV) -> bool {
    match v {
        RefOrV::T(s) => !s.spec_user_defined(),
        RefOrV::Ref(_) => false,
    }
}

/// The type declarations of a document, in declaration order. Every entry
/// is resolved through a reference to it (so the reference table fills up
/// and cycles are tied to their names); suppressed and reference-valued
/// entries are resolved but not printed.
pub open spec fn spec_decls(
    schemas: Map<Seq<char>, RefOrV>,
    entries: Seq<(Seq<char>, RefOrV)>,
    memo: Map<Seq<char>, TyV>,
) -> (Result<Seq<char>, ErrV>, Map<Seq<char>, TyV>)
    decreases entries.len(),
{
    if entries.len() == 0 {
        (Ok(Seq::empty()), memo)
    } else {
        let (name, v) = entries[0];
        let (r, m1) = spec_resolve(schemas, None, RefOrV::Ref(name), Set::empty(), memo);
        match r {
            Err(e) => (Err(e), m1),
            Ok(t) => {
                let piece = if emits_decl(v) {
                    "export type "@ + name + " = "@ + ts_body(t, false) + ";\n"@
                } else {
                    Seq::empty()
                };
                let (rest, m2) = spec_decls(schemas, entries.drop_first(), m1);
                match rest {
                    Ok(txt) => (Ok(piece + txt), m2),
                    Err(e) => (Err(e), m2),
                }
            },
        }
    }
}

/// The wrapper text of one optional operation.
pub open spec fn spec_one_op(
    schemas: Map<Seq<char>, RefOrV>,
    url: Seq<char>,
    method: Seq<char>,
    op: Option<OperationV>,
    memo: Map<Seq<char>, TyV>,
) -> (Result<Seq<char>, ErrV>, Map<Seq<char>, TyV>) {
    match op {
        None => (Ok(Seq::empty()), memo),
        Some(o) => {
            let (r, m1) = spec_resolve_route(schemas, url, method, o, memo);
            match r {
                Err(e) => (Err(e), m1),
                Ok(rt) => match spec_def_ts(rt) {
                    Ok(txt) => (Ok(txt), m1),
                    Err(e) => (Err(e), m1),
                },
            }
        },
    }
}

/// The wrapper texts of one path item, verb by verb.
pub open spec fn spec_path_ops(
    schemas: Map<Seq<char>, RefOrV>,
    url: Seq<char>,
    item: PathItemV,
    memo: Map<Seq<char>, TyV>,
) -> (Result<Seq<char>, ErrV>, Map<Seq<char>, TyV>) {
    let (g, m1) = spec_one_op(schemas, url, "get"@, item.get, memo);
    match g {
        Err(e) => (Err(e), m1),
        Ok(tg) => {
            let (pu, m2) = spec_one_op(schemas, url, "put"@, item.put, m1);
            match pu {
                Err(e) => (Err(e), m2),
                Ok(tp) => {
                    let (po, m3) = spec_one_op(schemas, url, "post"@, item.post, m2);
                    match po {
                        Err(e) => (Err(e), m3),
                        Ok(tpo) => {
                            let (de, m4) = spec_one_op(schemas, url, "delete"@, item.delete, m3);
                            match de {
                                Err(e) => (Err(e), m4),
                                Ok(td) => {
                                    let (pa, m5) = spec_one_op(
                                        schemas,
                                        url,
                                        "patch"@,
                                        item.patch,
                                        m4,
                                    );
                                    match pa {
                                        Err(e) => (Err(e), m5),
                                        Ok(tpa) => (Ok(tg + tp + tpo + td + tpa), m5),
                                    }
                                },
                            }
                        },
                    }
                },
            }
        },
    }
}

/// The request wrappers of a document, path by path in declaration order.
pub open spec fn spec_route_texts(
    schemas: Map<Seq<char>, RefOrV>,
    paths: Seq<(Seq<char>, PathItemV)>,
    memo: Map<Seq<char>, TyV>,
) -> (Result<Seq<char>, ErrV>, Map<Seq<char>, TyV>)
    decreases paths.len(),
{
    if paths.len() == 0 {
        (Ok(Seq::empty()), memo)
    } else {
        let (url, item) = paths[0];
        let (r, m1) = spec_path_ops(schemas, url, item, memo);
        match r {
            Err(e) => (Err(e), m1),
            Ok(txt) => {
                let (rest, m2) = spec_route_texts(schemas, paths.drop_first(), m1);
                match rest {
                    Ok(t2) => (Ok(txt + t2), m2),
                    Err(e) => (Err(e), m2),
                }
            },
        }
    }
}

/// The complete generated TypeScript text of a document: an import header,
/// every type declaration, then every request wrapper.
pub open spec fn spec_generate_ts(doc: OpenApiV) -> Result<Seq<char>, ErrV> {
    let schemas = crate::generate::schemas_map_of(doc.schemas);
    let (d, m1) = spec_decls(schemas, doc.schemas, Map::empty());
    match d {
        Err(e) => Err(e),
        Ok(decls) => {
            let (r, _) = spec_route_texts(schemas, doc.paths, m1);
            match r {
                Err(e) => Err(e),
                Ok(routes) => Ok("import * as ud from './user_defined';\n"@ + decls + routes),
            }
        },
    }
}

/// The name-to-definition map denoted by the schema entries; a later entry
/// shadows an earlier one.
pub open spec fn schemas_map_of(entries: Seq<(Seq<char>, RefOrV)>) -> Map<Seq<char>, RefOrV>
    decreases entries.len(),
{
    if entries.len() == 0 {
        Map::empty()
    } else {
        schemas_map_of(entries.drop_last()).insert(entries.last().0, entries.last().1)
    }
}

/// The schema table of an entry list denotes the same map as the views of
/// its entries.
pub proof fn lemma_schemas_map_agree(entries: Seq<(String, RefOr<crate::raw::OaSchema>)>)
    ensures
        schema_entries_map(entries) == schemas_map_of(
            Seq::new(
                entries.len(),
                |i: int| (entries[i].0@, crate::raw::ref_or_view(entries[i].1)),
            ),
        ),
    decreases entries.len(),
{
    let views = Seq::new(
        entries.len(),
        |i: int| (entries[i].0@, crate::raw::ref_or_view(entries[i].1)),
    );
    if entries.len() > 0 {
        lemma_schemas_map_agree(entries.drop_last());
        assert(views.drop_last() =~= Seq::new(
            entries.drop_last().len(),
            |i: int| (entries.drop_last()[i].0@, crate::raw::ref_or_view(entries.drop_last()[i].1)),
        ));
        assert(views.last() == (
            entries.last().0@,
            crate::raw::ref_or_view(entries.last().1),
        ));
    }
}

/// Resolved parameters are fully resolved types, and the reference table
/// stays fully resolved.
pub proof fn lemma_resolve_params_wf(
    schemas: Map<Seq<char>, RefOrV>,
    params: Seq<crate::routes::ParameterV>,
    memo: Map<Seq<char>, TyV>,
)
    requires
        schemas.dom().finite(),
        wf_memo(memo),
    ensures
        ({
            let (r, m) = spec_resolve_params(schemas, params, memo);
            wf_memo(m) && (r is Ok ==> forall|i: int|
                0 <= i < r->Ok_0.len() ==> (#[trigger] r->Ok_0[i].api_type).wf())
        }),
    decreases params.len(),
{
    if params.len() > 0 {
        let p = params[0];
        match p.schema {
            None => (),
            Some(v) => {
                lemma_resolve_wf(schemas, None, v, Set::empty(), memo);
                let (rr, m1) = spec_resolve(schemas, None, v, Set::empty(), memo);
                match rr {
                    Ok(t) => {
                        lemma_resolve_params_wf(schemas, params.drop_first(), m1);
                    },
                    Err(_) => (),
                }
            },
        }
    }
}

/// A resolved route is fully resolved, and the reference table stays fully
/// resolved.
pub proof fn lemma_resolve_route_wf(
    schemas: Map<Seq<char>, RefOrV>,
    url: Seq<char>,
    method: Seq<char>,
    op: OperationV,
    memo: Map<Seq<char>, TyV>,
)
    requires
        schemas.dom().finite(),
        wf_memo(memo),
    ensures
        ({
            let (r, m) = spec_resolve_route(schemas, url, method, op, memo);
            wf_memo(m) && (r is Ok ==> route_wf(r->Ok_0))
        }),
{
    reveal(spec_resolve_route);
    let res = spec_find_200(op.responses);
    match res {
        None => (),
        Some(r) => {
            if r.content.len() > 0 {
                match r.content[0].1.schema {
                    None => (),
                    Some(v) => {
                        lemma_resolve_wf(schemas, None, v, Set::empty(), memo);
                    },
                }
            }
        },
    }
    let (rbr, m1) = spec_resolve_response(schemas, res, memo);
    match rbr {
        Err(_) => (),
        Ok(rb) => {
            lemma_resolve_params_wf(
                schemas,
                match op.parameters {
                    Some(ps) => ps,
                    None => Seq::empty(),
                },
                m1,
            );
            let (psr, m2) = spec_resolve_params(
                schemas,
                match op.parameters {
                    Some(ps) => ps,
                    None => Seq::empty(),
                },
                m1,
            );
            match psr {
                Err(_) => (),
                Ok(ps) => {
                    match op.request_body {
                        None => (),
                        Some(b) => {
                            if b.content.len() == 1 {
                                match b.content[0].1.schema {
                                    None => (),
                                    Some(v) => {
                                        lemma_resolve_wf(schemas, None, v, Set::empty(), m2);
                                    },
                                }
                            }
                        },
                    }
                },
            }
        },
    }
}

// ------------------------------------------------------------------
// Executable generation
// ------------------------------------------------------------------

/// Appends the request wrapper of one optional operation.
fn emit_op(
    out: &mut String,
    url: &str,
    method: &str,
    op: &Option<Operation>,
    types: &mut TypeTable,
    schemas: &SchemaTable,
) -> (r: Result<(), GenError>)
    requires
        wf_memo(old(types)@),
    ensures
        ({
            let (sr, sm) = spec_one_op(
                schemas@,
                url@,
                method@,
                match *op {
                    Some(o) => Some(operation_view(o)),
                    None => None,
                },
                old(types)@,
            );
            wf_memo(final(types)@) && final(types)@ == sm && match r {
                Ok(_) => sr is Ok && final(out)@ == old(out)@ + sr->Ok_0,
                Err(e) => sr == Err::<Seq<char>, ErrV>(err_view(e)) && final(out)@ == old(
                    out,
                )@,
            }
        }),
{
    let o = match op {
        None => {
            proof {
                assert(final(out)@ =~= old(out)@ + Seq::<char>::empty());
            }
            return Ok(());
        },
        Some(o) => o,
    };
    proof {
        lemma_schema_entries_map_finite(schemas.entries@);
        lemma_resolve_route_wf(schemas@, url@, method@, o@, types@);
    }
    let rt = match ApiRoute::parse_openapi(url, method, o, types, schemas) {
        Ok(rt) => rt,
        Err(e) => {
            return Err(e);
        },
    };
    let txt = match rt.def_ts() {
        Ok(txt) => txt,
        Err(e) => {
            return Err(e);
        },
    };
    out.append(txt.as_str());
    Ok(())
}

/// Appends the request wrappers of one path item, verb by verb.
#[verifier::rlimit(100)]
fn emit_path(
    out: &mut String,
    url: &str,
    item: &PathItem,
    types: &mut TypeTable,
    schemas: &SchemaTable,
) -> (r: Result<(), GenError>)
    requires
        wf_memo(old(types)@),
    ensures
        ({
            let (sr, sm) = spec_path_ops(schemas@, url@, path_item_view(*item), old(types)@);
            wf_memo(final(types)@) && final(types)@ == sm && match r {
                Ok(_) => sr is Ok && final(out)@ == old(out)@ + sr->Ok_0,
                Err(e) => sr == Err::<Seq<char>, ErrV>(err_view(e)),
            }
        }),
{
    let ghost r0 = out@;
    let ghost iv = path_item_view(*item);
    let ghost (sr, sm) = spec_path_ops(schemas@, url@, iv, types@);
    let ghost (s1, m1) = spec_one_op(schemas@, url@, "get"@, iv.get, types@);
    match emit_op(out, url, "get", &item.get, types, schemas) {
        Ok(_) => (),
        Err(e) => {
            return Err(e);
        },
    }
    proof {
        assert(types@ == m1 && s1 is Ok && out@ == r0 + s1->Ok_0);
    }
    let ghost (s2, m2) = spec_one_op(schemas@, url@, "put"@, iv.put, types@);
    match emit_op(out, url, "put", &item.put, types, schemas) {
        Ok(_) => (),
        Err(e) => {
            return Err(e);
        },
    }
    proof {
        assert(types@ == m2 && s2 is Ok && out@ == (r0 + s1->Ok_0) + s2->Ok_0);
    }
    let ghost (s3, m3) = spec_one_op(schemas@, url@, "post"@, iv.post, types@);
    match emit_op(out, url, "post", &item.post, types, schemas) {
        Ok(_) => (),
        Err(e) => {
            return Err(e);
        },
    }
    proof {
        assert(types@ == m3 && s3 is Ok && out@ == ((r0 + s1->Ok_0) + s2->Ok_0) + s3->Ok_0);
    }
    let ghost (s4, m4) = spec_one_op(schemas@, url@, "delete"@, iv.delete, types@);
    match emit_op(out, url, "delete", &item.delete, types, schemas) {
        Ok(_) => (),
        Err(e) => {
            return Err(e);
        },
    }
    proof {
        assert(types@ == m4 && s4 is Ok && out@ == (((r0 + s1->Ok_0) + s2->Ok_0) + s3->Ok_0)
            + s4->Ok_0);
    }
    let ghost (s5, m5) = spec_one_op(schemas@, url@, "patch"@, iv.patch, types@);
    match emit_op(out, url, "patch", &item.patch, types, schemas) {
        Ok(_) => (),
        Err(e) => {
            return Err(e);
        },
    }
    proof {
        assert(types@ == m5 && s5 is Ok && out@ == ((((r0 + s1->Ok_0) + s2->Ok_0) + s3->Ok_0)
            + s4->Ok_0) + s5->Ok_0);
        assert(sr == Ok::<Seq<char>, ErrV>(
            s1->Ok_0 + s2->Ok_0 + s3->Ok_0 + s4->Ok_0 + s5->Ok_0,
        ));
        assert(out@ =~= r0 + ((((s1->Ok_0 + s2->Ok_0) + s3->Ok_0) + s4->Ok_0) + s5->Ok_0));
        assert(sm == m5);
    }
    Ok(())
}

/// Generates the complete TypeScript text of a document: the import
/// header, one declaration per inline non-suppressed named schema, then
/// one request wrapper per operation, all in declaration order.
#[verifier::rlimit(80)]
pub fn generate_ts(oa: OpenApi) -> (r: Result<String, GenError>)
    ensures
        match r {
            Ok(s) => spec_generate_ts(oa@) == Ok::<Seq<char>, ErrV>(s@),
            Err(e) => spec_generate_ts(oa@) == Err::<Seq<char>, ErrV>(err_view(e)),
        },
{
    let ghost docv = openapi_view(oa);
    let OpenApi { paths, components } = oa;
    proof {
        lemma_schemas_map_agree(components.schemas@);
    }
    let schemas = SchemaTable::new(components.schemas);
    let ghost smap = schemas@;
    let mut types = TypeTable::new();
    proof {
        assert(smap == schemas_map_of(docv.schemas));
        assert(docv.schemas.len() == schemas.order().len());
        assert forall|i: int|
            0 <= i < docv.schemas.len() implies #[trigger] docv.schemas[i] == schemas.order()[i]
            by {}
        assert(docv.schemas =~= schemas.order());
    }

    // Declarations.
    let mut decls = String::new();
    let n = schemas.len();
    let mut i: usize = 0;
    proof {
        assert(docv.schemas.skip(0) =~= docv.schemas);
        let (ir, im) = spec_decls(smap, docv.schemas, Map::empty());
        match ir {
            Ok(rest) => {
                assert(decls@ + rest =~= rest);
            },
            Err(_) => (),
        }
    }
    while i < n
        invariant
            i <= n,
            n == schemas.order().len(),
            docv == oa@,
            docv.schemas == schemas.order(),
            smap == schemas@,
            smap == schemas_map_of(docv.schemas),
            wf_memo(types@),
            ({
                let (sr, sm) = spec_decls(smap, docv.schemas, Map::empty());
                let (ir, im) = spec_decls(smap, docv.schemas.skip(i as int), types@);
                sm == im && sr == match ir {
                    Ok(rest) => Ok(decls@ + rest),
                    Err(e) => Err(e),
                }
            }),
        decreases n - i,
    {
        let (name, value) = schemas.entry(i);
        proof {
            assert(docv.schemas[i as int] == (name@, crate::raw::ref_or_view(*value)));
            assert(docv.schemas.skip(i as int)[0] == docv.schemas[i as int]);
            assert(docv.schemas.skip(i as int).drop_first() =~= docv.schemas.skip(i as int + 1));
            lemma_schema_entries_map_finite(schemas.entries@);
            lemma_resolve_wf(smap, None, RefOrV::Ref(name@), Set::empty(), types@);
        }
        let name = name.clone();
        let probe = RefOr::Ref(Ref { loc: name.clone() });
        proof {
            assert(crate::raw::ref_or_view(probe) == RefOrV::Ref(docv.schemas[i as int].0));
        }
        let t = match ApiType::parse_openapi(None, &probe, AncestorSet::new(), &mut types, &schemas)
             {
            Ok(t) => t,
            Err(e) => {
                return Err(e);
            },
        };
        let emit = match value {
            RefOr::T(s) => !s.is_user_defined(),
            RefOr::Ref(_) => false,
        };
        let ghost decls_prev = decls@;
        let ghost piece = if emits_decl(docv.schemas[i as int].1) {
            "export type "@ + docv.schemas[i as int].0 + " = "@ + ts_body(
                crate::ir::ty_view(t),
                false,
            ) + ";\n"@
        } else {
            Seq::<char>::empty()
        };
        if emit {
            decls.append("export type ");
            decls.append(name.as_str());
            decls.append(" = ");
            let piece_s = t.body_ts(false);
            decls.append(piece_s.as_str());
            decls.append(";\n");
        }
        proof {
            assert(decls@ =~= decls_prev + piece);
        }
        i += 1;
        proof {
            let (ir_new, im_new) = spec_decls(smap, docv.schemas.skip(i as int), types@);
            match ir_new {
                Ok(rest) => {
                    assert(decls_prev + (piece + rest) =~= decls@ + rest);
                },
                Err(_) => (),
            }
        }
    }
    proof {
        assert(docv.schemas.skip(n as int) =~= Seq::<(Seq<char>, RefOrV)>::empty());
    }

    // Request wrappers.
    let mut routes = String::new();
    let mut i: usize = 0;
    proof {
        let (sr0, sm0) = spec_decls(smap, docv.schemas, Map::empty());
        assert(decls@ + Seq::<char>::empty() =~= decls@);
        assert(sr0 == Ok::<Seq<char>, ErrV>(decls@));
        assert(sm0 == types@);
        assert(docv.paths.skip(0) =~= docv.paths);
        let (ir, im) = spec_route_texts(smap, docv.paths, types@);
        match ir {
            Ok(rest) => {
                assert(routes@ + rest =~= rest);
            },
            Err(_) => (),
        }
    }
    while i < paths.len()
        invariant
            i <= paths@.len(),
            docv == oa@,
            docv.paths == Seq::new(
                paths@.len(),
                |j: int| (paths@[j].0@, path_item_view(paths@[j].1)),
            ),
            docv.paths.len() == paths@.len(),
            smap == schemas@,
            smap == schemas_map_of(docv.schemas),
            wf_memo(types@),
            spec_decls(smap, docv.schemas, Map::empty()).0 == Ok::<Seq<char>, ErrV>(decls@),
            ({
                let (sr, sm) = spec_route_texts(
                    smap,
                    docv.paths,
                    spec_decls(smap, docv.schemas, Map::empty()).1,
                );
                let (ir, im) = spec_route_texts(smap, docv.paths.skip(i as int), types@);
                sm == im && sr == match ir {
                    Ok(rest) => Ok(routes@ + rest),
                    Err(e) => Err(e),
                }
            }),
        decreases paths@.len() - i,
    {
        let entry = &paths[i];
        proof {
            assert(docv.paths[i as int] == (
                paths@[i as int].0@,
                path_item_view(paths@[i as int].1),
            ));
            assert(docv.paths.skip(i as int)[0] == docv.paths[i as int]);
            assert(docv.paths.skip(i as int).drop_first() =~= docv.paths.skip(i as int + 1));
        }
        let ghost routes_prev = routes@;
        let ghost (sp, spm) = spec_path_ops(
            smap,
            docv.paths[i as int].0,
            docv.paths[i as int].1,
            types@,
        );
        match emit_path(&mut routes, entry.0.as_str(), &entry.1, &mut types, &schemas) {
            Ok(_) => (),
            Err(e) => {
                return Err(e);
            },
        }
        i += 1;
        proof {
            let (ir_new, im_new) = spec_route_texts(smap, docv.paths.skip(i as int), types@);
            match ir_new {
                Ok(rest) => {
                    assert(routes_prev + (sp->Ok_0 + rest) =~= routes@ + rest);
                },
                Err(_) => (),
            }
        }
    }
    proof {
        assert(docv.paths.skip(paths@.len() as int) =~= Seq::<(Seq<char>, PathItemV)>::empty());
    }

    let mut out = "import * as ud from './user_defined';\n".to_owned();
    out.append(decls.as_str());
    out.append(routes.as_str());
    Ok(out)
}

} // verus!