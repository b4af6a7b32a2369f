//! The schema resolver: raw schema nodes become normalized IR types.
//!
//! `spec_resolve` and its companions are the mathematical description of
//! resolution; `ApiType::parse_openapi` is the executable resolver, proved
//! to compute exactly what the description says, including how it fills the
//! reference table.
//!
//! Termination: following a reference adds its name to the ancestor set, and
//! every followed name comes from the document's schema table, so the set of
//! defined names not yet on the path shrinks; within one named schema the
//! recursion is structural.

use vstd::prelude::*;

use crate::ir::{
    fields_view_of, kind_view, lemma_fields_wf_iff, lemma_tys_wf_iff, opt_str_view, strs_view_of,
    ty_view, tys_view_of, ApiKind, ApiPrim, ApiType, KindV, PrimV, TyV,
};
use crate::raw::{
    lit_view, lits_view, opt_format_view, props_view, ref_or_view, schema_type_view, schema_view,
    schemas_list_view, items_list_view, ArrayItems, EnumLiteral, FormatV, ItemsV, KnownFormat,
    LitV, OaSchema, RefOr, RefOrV, SchemaFormat, SchemaType, SchemaTypeV, SchemaV, Type,
};
use crate::tables::{
    lemma_names_set_finite, lemma_schema_entries_map_finite, AncestorSet, SchemaTable, TypeTable,
};
use crate::{err_view, ErrV, GenError};

verus! {

broadcast use
    vstd::seq::group_seq_axioms,
    vstd::std_specs::vec::group_vec_axioms,
    vstd::map::group_map_axioms,
    vstd::set::group_set_axioms,
    vstd::set::Set::lemma_set_insert_diff_decreases;

/// The last `/`-separated segment of a reference location: the name of the
/// referenced schema.
pub open spec fn spec_ref_name(loc: Seq<char>) -> Seq<char>
    decreases loc.len(),
{
    if loc.len() == 0 {
        Seq::empty()
    } else if loc.last() == '/' {
        Seq::empty()
    } else {
        spec_ref_name(loc.drop_last()).push(loc.last())
    }
}

/// How many defined schema names are not yet on the resolution path.
pub open spec fn resolve_measure(schemas: Map<Seq<char>, RefOrV>, parents: Set<Seq<char>>) -> nat {
    schemas.dom().difference(parents).len()
}

/// Resolves one reference-or-inline node.
///
/// Returns the resolution outcome together with the reference table as it
/// stands afterwards. A reference is served from the table if memoized,
/// becomes a `Recursive` placeholder if its name is already on the path,
/// and is otherwise looked up, resolved under its name, and memoized.
pub open spec fn spec_resolve(
    schemas: Map<Seq<char>, RefOrV>,
    name: Option<Seq<char>>,
    value: RefOrV,
    parents: Set<Seq<char>>,
    memo: Map<Seq<char>, TyV>,
) -> (Result<TyV, ErrV>, Map<Seq<char>, TyV>)
    decreases resolve_measure(schemas, parents), value,
    when schemas.dom().finite() && parents.finite()
{
    match value {
        RefOrV::Ref(loc) => {
            let n = spec_ref_name(loc);
            if memo.contains_key(n) {
                (Ok(memo[n]), memo)
            } else if parents.contains(n) {
                if n.len() == 0 {
                    (Err(ErrV::SchemaCycleWithoutName), memo)
                } else {
                    (Ok(TyV { name: Some(n), kind: KindV::Recursive }), memo)
                }
            } else if schemas.contains_key(n) {
                let (r, m1) = spec_resolve(
                    schemas,
                    Some(n),
                    schemas[n],
                    parents.insert(n),
                    memo,
                );
                match r {
                    Ok(t) => (Ok(t), m1.insert(n, t)),
                    Err(e) => (Err(e), m1),
                }
            } else {
                (Err(ErrV::UnresolvedReference(n)), memo)
            }
        },
        RefOrV::T(s) => spec_resolve_schema(schemas, name, s, parents, memo),
    }
}

/// Resolves one inline schema node, classifying it by shape.
pub open spec fn spec_resolve_schema(
    schemas: Map<Seq<char>, RefOrV>,
    name: Option<Seq<char>>,
    s: SchemaV,
    parents: Set<Seq<char>>,
    memo: Map<Seq<char>, TyV>,
) -> (Result<TyV, ErrV>, Map<Seq<char>, TyV>)
    decreases resolve_measure(schemas, parents), s,
    when schemas.dom().finite() && parents.finite()
{
    match s {
        SchemaV::Object(o) => {
            match spec_nullable_base(o.schema_type) {
                Err(e) => (Err(e), memo),
                Ok((nullable, base)) => match base {
                    Type::Object => {
                        let (r, m1) = spec_resolve_props(schemas, o.properties, parents, memo);
                        match r {
                            Ok(fields) => (
                                Ok(spec_wrap(name, KindV::Object(fields), nullable)),
                                m1,
                            ),
                            Err(e) => (Err(e), m1),
                        }
                    },
                    Type::String => match spec_string_kind(o.enum_values, o.format) {
                        Ok(kind) => (Ok(spec_wrap(name, kind, nullable)), memo),
                        Err(e) => (Err(e), memo),
                    },
                    Type::Null => (
                        Ok(spec_wrap(name, KindV::Prim(PrimV::Null), nullable)),
                        memo,
                    ),
                    Type::Boolean => (
                        Ok(spec_wrap(name, KindV::Prim(PrimV::Bool), nullable)),
                        memo,
                    ),
                    Type::Integer => (
                        Ok(spec_wrap(name, KindV::Prim(PrimV::Int), nullable)),
                        memo,
                    ),
                    Type::Number => (
                        Ok(spec_wrap(name, KindV::Prim(PrimV::Float), nullable)),
                        memo,
                    ),
                    Type::Array => (Err(ErrV::UnsupportedSchema("object type"@)), memo),
                },
            }
        },
        SchemaV::AllOf(of) => {
            let (r, m1) = spec_resolve_items(schemas, of.items, parents, memo);
            match r {
                Ok(ts) => (Ok(TyV { name, kind: KindV::Combo(ts) }), m1),
                Err(e) => (Err(e), m1),
            }
        },
        SchemaV::OneOf(of) => {
            let (r, m1) = spec_resolve_items(schemas, of.items, parents, memo);
            match r {
                Ok(uni) => (Ok(spec_one_of(name, uni)), m1),
                Err(e) => (Err(e), m1),
            }
        },
        SchemaV::Array(a) => {
            match spec_nullable_base(a.schema_type) {
                Err(e) => (Err(e), memo),
                Ok((nullable, _)) => match a.items {
                    ItemsV::False => {
                        if a.prefix_items.len() == 0 {
                            (Err(ErrV::UnsupportedSchema("array items"@)), memo)
                        } else {
                            let (r, m1) = spec_resolve_prefix(
                                schemas,
                                a.prefix_items,
                                parents,
                                memo,
                            );
                            match r {
                                // A tuple from positional items keeps its
                                // shape regardless of a nullable marker.
                                Ok(ts) => (Ok(TyV { name, kind: KindV::Tuple(ts) }), m1),
                                Err(e) => (Err(e), m1),
                            }
                        }
                    },
                    ItemsV::R(item) => {
                        let (r, m1) = spec_resolve(schemas, None, *item, parents, memo);
                        match r {
                            Ok(it) => {
                                let kind = if a.max_items == a.min_items && a.max_items is Some {
                                    KindV::Tuple(
                                        Seq::new(a.max_items->0 as nat, |i: int| it),
                                    )
                                } else {
                                    KindV::Array(Box::new(it))
                                };
                                (Ok(spec_wrap(name, kind, nullable)), m1)
                            },
                            Err(e) => (Err(e), m1),
                        }
                    },
                },
            }
        },
        SchemaV::AnyOf => (Err(ErrV::UnsupportedSchema("anyOf"@)), memo),
    }
}

/// Resolves an ordered property list, left to right, threading the
/// reference table through and stopping at the first failure.
pub open spec fn spec_resolve_props(
    schemas: Map<Seq<char>, RefOrV>,
    props: Seq<(Seq<char>, RefOrV)>,
    parents: Set<Seq<char>>,
    memo: Map<Seq<char>, TyV>,
) -> (Result<Seq<(Seq<char>, TyV)>, ErrV>, Map<Seq<char>, TyV>)
    decreases resolve_measure(schemas, parents), props,
    when schemas.dom().finite() && parents.finite()
{
    if props.len() == 0 {
        (Ok(Seq::empty()), memo)
    } else {
        let (r, m1) = spec_resolve(schemas, None, props[0].1, parents, memo);
        match r {
            Ok(t) => {
                let (rest, m2) = spec_resolve_props(schemas, props.drop_first(), parents, m1);
                match rest {
                    Ok(fields) => (Ok(seq![(props[0].0, t)] + fields), m2),
                    Err(e) => (Err(e), m2),
                }
            },
            Err(e) => (Err(e), m1),
        }
    }
}

/// Resolves a member list of a union or intersection, left to right.
pub open spec fn spec_resolve_items(
    schemas: Map<Seq<char>, RefOrV>,
    items: Seq<RefOrV>,
    parents: Set<Seq<char>>,
    memo: Map<Seq<char>, TyV>,
) -> (Result<Seq<TyV>, ErrV>, Map<Seq<char>, TyV>)
    decreases resolve_measure(schemas, parents), items,
    when schemas.dom().finite() && parents.finite()
{
    if items.len() == 0 {
        (Ok(Seq::empty()), memo)
    } else {
        let (r, m1) = spec_resolve(schemas, None, items[0], parents, memo);
        match r {
            Ok(t) => {
                let (rest, m2) = spec_resolve_items(schemas, items.drop_first(), parents, m1);
                match rest {
                    Ok(ts) => (Ok(seq![t] + ts), m2),
                    Err(e) => (Err(e), m2),
                }
            },
            Err(e) => (Err(e), m1),
        }
    }
}

/// Resolves positional item schemas, left to right.
pub open spec fn spec_resolve_prefix(
    schemas: Map<Seq<char>, RefOrV>,
    items: Seq<SchemaV>,
    parents: Set<Seq<char>>,
    memo: Map<Seq<char>, TyV>,
) -> (Result<Seq<TyV>, ErrV>, Map<Seq<char>, TyV>)
    decreases resolve_measure(schemas, parents), items,
    when schemas.dom().finite() && parents.finite()
{
    if items.len() == 0 {
        (Ok(Seq::empty()), memo)
    } else {
        let (r, m1) = spec_resolve_schema(schemas, None, items[0], parents, memo);
        match r {
            Ok(t) => {
                let (rest, m2) = spec_resolve_prefix(schemas, items.drop_first(), parents, m1);
                match rest {
                    Ok(ts) => (Ok(seq![t] + ts), m2),
                    Err(e) => (Err(e), m2),
                }
            },
            Err(e) => (Err(e), m1),
        }
    }
}

/// Reads a `type` keyword: a plain type, or the two-element nullable
/// encoding `[T, null]`. Any other type list is unsupported.
pub open spec fn spec_nullable_base(st: SchemaTypeV) -> Result<(bool, Type), ErrV> {
    match st {
        SchemaTypeV::AnyValue => Err(ErrV::UnsupportedSchema("any"@)),
        SchemaTypeV::Type(t) => Ok((false, t)),
        SchemaTypeV::Array(ts) => {
            if ts.len() == 2 && ts[1] == Type::Null {
                Ok((true, ts[0]))
            } else {
                Err(ErrV::UnsupportedSchema("type list"@))
            }
        },
    }
}

/// Classifies a string schema: an enumeration of literals, a binary-format
/// file, or a plain string. An unrecognized format without an enumeration
/// is an error.
pub open spec fn spec_string_kind(
    enum_values: Option<Seq<LitV>>,
    format: Option<FormatV>,
) -> Result<KindV, ErrV> {
    match enum_values {
        Some(ev) => {
            if forall|i: int| 0 <= i < ev.len() ==> (#[trigger] ev[i]) is Str {
                Ok(KindV::StrEnum(Seq::new(ev.len(), |i: int| ev[i]->Str_0)))
            } else {
                Err(ErrV::UnsupportedSchema("enum literal"@))
            }
        },
        None => match format {
            Some(FormatV::Known(KnownFormat::Binary)) => Ok(KindV::Prim(PrimV::File)),
            Some(FormatV::Known(k)) => Err(
                ErrV::UnsupportedFormat(crate::raw::spec_format_name(k)),
            ),
            Some(FormatV::Custom(c)) => Err(ErrV::UnsupportedFormat(c)),
            None => Ok(KindV::Prim(PrimV::Str)),
        },
    }
}

/// Attaches the declaration name and, for a nullable schema, wraps the kind
/// in the canonical `Option` form.
pub open spec fn spec_wrap(name: Option<Seq<char>>, kind: KindV, nullable: bool) -> TyV {
    if nullable {
        TyV {
            name,
            kind: KindV::Prim(PrimV::Option(Box::new(TyV { name: None, kind }))),
        }
    } else {
        TyV { name, kind }
    }
}

/// The view of an executable resolution outcome.
pub open spec fn res_ty_view(r: Result<ApiType, GenError>) -> Result<TyV, ErrV> {
    match r {
        Ok(t) => Ok(ty_view(t)),
        Err(e) => Err(err_view(e)),
    }
}

/// Collapses a resolved `oneOf` member list: a singleton collapses to its
/// member, two members of which exactly one is null collapse to `Option` of
/// the other, anything else is a `Union`.
pub open spec fn spec_one_of(name: Option<Seq<char>>, uni: Seq<TyV>) -> TyV {
    if uni.len() == 1 {
        uni[0]
    } else if uni.len() == 2 {
        let null0 = uni[0].kind == KindV::Prim(PrimV::Null);
        let null1 = uni[1].kind == KindV::Prim(PrimV::Null);
        if null0 && !null1 {
            TyV { name, kind: KindV::Prim(PrimV::Option(Box::new(uni[1]))) }
        } else if null1 && !null0 {
            TyV { name, kind: KindV::Prim(PrimV::Option(Box::new(uni[0]))) }
        } else {
            TyV { name, kind: KindV::Union(uni) }
        }
    } else {
        TyV { name, kind: KindV::Union(uni) }
    }
}

// ------------------------------------------------------------------
// Executable resolver.
// ------------------------------------------------------------------

/// The name a reference points at: the last `/`-separated segment of its
/// location path.
pub fn ref_name(loc: &str) -> (r: String)
    ensures
        r@ == spec_ref_name(loc@),
{
    let n = loc.unicode_len();
    let mut k = n;
    while k > 0 && loc.get_char(k - 1) != '/'
        invariant
            k <= n,
            n == loc@.len(),
            forall|j: int| k as int <= j < n as int ==> loc@[j] != '/',
        decreases k,
    {
        k -= 1;
    }
    proof {
        lemma_ref_name_tail(loc@, k as int);
    }
    loc.substring_char(k, n).to_owned()
}

/// A suffix with no slash, starting right after a slash (or at the start),
/// is the reference name.
proof fn lemma_ref_name_tail(loc: Seq<char>, k: int)
    requires
        0 <= k <= loc.len(),
        k > 0 ==> loc[k - 1] == '/',
        forall|j: int| k <= j < loc.len() ==> loc[j] != '/',
    ensures
        spec_ref_name(loc) == loc.subrange(k, loc.len() as int),
    decreases loc.len(),
{
    let n = loc.len() as int;
    if n == k {
        if k == 0 {
            assert(spec_ref_name(loc) =~= loc.subrange(0, 0));
        } else {
            assert(loc.last() == loc[k - 1]);
            assert(spec_ref_name(loc) =~= loc.subrange(k, n));
        }
    } else {
        assert(loc.last() == loc[n - 1]);
        assert(loc[n - 1] != '/');
        lemma_ref_name_tail(loc.drop_last(), k);
        assert(loc.drop_last().subrange(k, n - 1) =~= loc.subrange(k, n - 1));
        assert(loc.subrange(k, n - 1).push(loc[n - 1]) =~= loc.subrange(k, n));
    }
}

/// Attaches the declaration name; for a nullable schema, wraps the kind in
/// the canonical `Option` form.
fn wrap_nullable(name: Option<String>, kind: ApiKind, nullable: bool) -> (r: ApiType)
    ensures
        ty_view(r) == spec_wrap(opt_str_view(name), kind_view(kind), nullable),
{
    if nullable {
        let inner = ApiType::new(None, kind);
        ApiType::new(name, ApiKind::Prim(ApiPrim::Option(Box::new(inner))))
    } else {
        ApiType::new(name, kind)
    }
}

/// Reads a `type` keyword into its nullability flag and base type.
fn nullable_base(st: &SchemaType) -> (r: Result<(bool, Type), GenError>)
    ensures
        match r {
            Ok(p) => spec_nullable_base(schema_type_view(*st)) == Ok::<_, ErrV>((p.0, p.1)),
            Err(e) => spec_nullable_base(schema_type_view(*st)) == Err::<(bool, Type), _>(
                err_view(e),
            ),
        },
{
    match st {
        SchemaType::AnyValue => Err(GenError::UnsupportedSchema("any".to_owned())),
        SchemaType::Type(t) => Ok((false, *t)),
        SchemaType::Array(ts) => {
            if ts.len() == 2 && ts[1] == Type::Null {
                Ok((true, ts[0]))
            } else {
                Err(GenError::UnsupportedSchema("type list".to_owned()))
            }
        },
    }
}

/// Classifies a string schema by its enumeration and format annotations.
fn string_kind(enum_values: &Option<Vec<EnumLiteral>>, format: &Option<SchemaFormat>) -> (r:
    Result<ApiKind, GenError>)
    ensures
        match r {
            Ok(k) => spec_string_kind(lits_view(*enum_values), opt_format_view(*format))
                == Ok::<_, ErrV>(kind_view(k)),
            Err(e) => spec_string_kind(lits_view(*enum_values), opt_format_view(*format))
                == Err::<KindV, _>(err_view(e)),
        },
{
    match enum_values {
        Some(ev) => {
            let ghost evv = lits_view(Some(*ev))->0;
            let mut out: Vec<String> = Vec::new();
            let mut i: usize = 0;
            while i < ev.len()
                invariant
                    i <= ev@.len(),
                    out@.len() == i as int,
                    *enum_values == Some(*ev),
                    evv == lits_view(Some(*ev))->0,
                    evv.len() == ev@.len(),
                    forall|j: int| 0 <= j < evv.len() ==> evv[j] == lit_view(ev@[j]),
                    forall|j: int|
                        0 <= j < i as int ==> (#[trigger] evv[j]) is Str && out@[j]@
                            == evv[j]->Str_0,
                decreases ev@.len() - i,
            {
                match &ev[i] {
                    EnumLiteral::Str(s) => out.push(s.clone()),
                    EnumLiteral::Other => {
                        proof {
                            assert(!(evv[i as int] is Str));
                        }
                        return Err(GenError::UnsupportedSchema("enum literal".to_owned()));
                    },
                }
                i += 1;
            }
            proof {
                assert(strs_view_of(out) =~= Seq::new(evv.len(), |j: int| evv[j]->Str_0));
            }
            Ok(ApiKind::StrEnum(out))
        },
        None => match format {
            Some(SchemaFormat::KnownFormat(kf)) => {
                if matches!(kf, KnownFormat::Binary) {
                    Ok(ApiKind::Prim(ApiPrim::File))
                } else {
                    Err(GenError::UnsupportedFormat(kf.name().to_owned()))
                }
            },
            Some(SchemaFormat::Custom(c)) => Err(GenError::UnsupportedFormat(c.clone())),
            None => Ok(ApiKind::Prim(ApiPrim::Str)),
        },
    }
}

/// The fixed-arity tuple kind: `count` structural copies of one item type.
fn replicate(item: &ApiType, count: usize) -> (r: Vec<ApiType>)
    ensures
        tys_view_of(r) == Seq::new(count as nat, |i: int| ty_view(*item)),
        r@.len() == count as int,
{
    let mut out: Vec<ApiType> = Vec::new();
    let mut i: usize = 0;
    while i < count
        invariant
            i <= count,
            out@.len() == i as int,
            forall|j: int| 0 <= j < i as int ==> #[trigger] ty_view(out@[j]) == ty_view(*item),
        decreases count - i,
    {
        out.push(item.deep_copy());
        i += 1;
    }
    proof {
        let target = Seq::new(count as nat, |i: int| ty_view(*item));
        assert forall|j: int| 0 <= j < target.len() implies tys_view_of(out)[j] == target[j] by {
            assert(ty_view(out@[j]) == ty_view(*item));
        }
        assert(tys_view_of(out) =~= target);
    }
    out
}

/// Collapses a resolved `oneOf` member list, as `spec_one_of` describes.
fn one_of_type(name: Option<String>, uni: Vec<ApiType>) -> (r: ApiType)
    ensures
        ty_view(r) == spec_one_of(opt_str_view(name), tys_view_of(uni)),
{
    let ghost uniview = tys_view_of(uni);
    let mut uni = uni;
    if uni.len() == 1 {
        let t = uni.remove(0);
        return t;
    }
    if uni.len() == 2 {
        let null0 = uni[0].is_null();
        let null1 = uni[1].is_null();
        if null0 && !null1 {
            let other = uni.remove(1);
            return ApiType::new(name, ApiKind::Prim(ApiPrim::Option(Box::new(other))));
        }
        if null1 && !null0 {
            let other = uni.remove(0);
            return ApiType::new(name, ApiKind::Prim(ApiPrim::Option(Box::new(other))));
        }
    }
    proof {
        assert(tys_view_of(uni) =~= uniview);
    }
    ApiType::new(name, ApiKind::Union(uni))
}

impl ApiType {
    /// Resolves one reference-or-inline schema node into an IR type,
    /// memoizing named results in the reference table. Computes exactly
    /// `spec_resolve`, both in its outcome and in how it fills the table.
    pub fn parse_openapi(
        name: Option<String>,
        value: &RefOr<OaSchema>,
        parents: AncestorSet,
        types: &mut TypeTable,
        schemas: &SchemaTable,
    ) -> (r: Result<ApiType, GenError>)
        ensures
            spec_resolve(
                schemas@,
                opt_str_view(name),
                ref_or_view(*value),
                parents@,
                old(types)@,
            ) == (res_ty_view(r), final(types)@),
        decreases resolve_measure(schemas@, parents@), *value,
    {
        proof {
            lemma_schema_entries_map_finite(schemas.entries@);
            lemma_names_set_finite(parents.names@);
        }
        match value {
            RefOr::Ref(rf) => {
                let n = ref_name(rf.loc.as_str());
                let memoized = match types.get(&n) {
                    Some(t) => Some(t.deep_copy()),
                    None => None,
                };
                if let Some(t) = memoized {
                    return Ok(t);
                }
                if parents.contains(&n) {
                    if n.as_str().is_empty() {
                        return Err(GenError::SchemaCycleWithoutName);
                    }
                    return Ok(ApiType::new(Some(n), ApiKind::Recursive));
                }
                match schemas.get(&n) {
                    None => Err(GenError::UnresolvedReference(n)),
                    Some(v) => {
                        let mut parents = parents;
                        parents.insert(n.clone());
                        let inner = Self::parse_openapi(
                            Some(n.clone()),
                            v,
                            parents,
                            types,
                            schemas,
                        );
                        match inner {
                            Ok(t) => {
                                let copy = t.deep_copy();
                                types.insert(n, copy);
                                Ok(t)
                            },
                            Err(e) => Err(e),
                        }
                    },
                }
            },
            RefOr::T(s) => Self::parse_schema(name, s, parents, types, schemas),
        }
    }

    /// Resolves one inline schema node, classifying it by shape. Computes
    /// exactly `spec_resolve_schema`.
    pub fn parse_schema(
        name: Option<String>,
        s: &OaSchema,
        parents: AncestorSet,
        types: &mut TypeTable,
        schemas: &SchemaTable,
    ) -> (r: Result<ApiType, GenError>)
        ensures
            spec_resolve_schema(
                schemas@,
                opt_str_view(name),
                schema_view(*s),
                parents@,
                old(types)@,
            ) == (res_ty_view(r), final(types)@),
        decreases resolve_measure(schemas@, parents@), *s,
    {
        proof {
            lemma_schema_entries_map_finite(schemas.entries@);
            lemma_names_set_finite(parents.names@);
        }
        match s {
            OaSchema::Object(o) => {
                let (nullable, base) = match nullable_base(&o.schema_type) {
                    Ok(p) => p,
                    Err(e) => {
                        return Err(e);
                    },
                };
                match base {
                    Type::Object => {
                        match Self::parse_props(&o.properties, &parents, types, schemas) {
                            Ok(fields) => Ok(
                                wrap_nullable(name, ApiKind::Object(fields), nullable),
                            ),
                            Err(e) => Err(e),
                        }
                    },
                    Type::String => match string_kind(&o.enum_values, &o.format) {
                        Ok(kind) => Ok(wrap_nullable(name, kind, nullable)),
                        Err(e) => Err(e),
                    },
                    Type::Null => Ok(
                        wrap_nullable(name, ApiKind::Prim(ApiPrim::Null), nullable),
                    ),
                    Type::Boolean => Ok(
                        wrap_nullable(name, ApiKind::Prim(ApiPrim::Bool), nullable),
                    ),
                    Type::Integer => Ok(
                        wrap_nullable(name, ApiKind::Prim(ApiPrim::Int), nullable),
                    ),
                    Type::Number => Ok(
                        wrap_nullable(name, ApiKind::Prim(ApiPrim::Float), nullable),
                    ),
                    Type::Array => Err(GenError::UnsupportedSchema("object type".to_owned())),
                }
            },
            OaSchema::AllOf(of) => {
                match Self::parse_items(&of.items, &parents, types, schemas) {
                    Ok(ts) => Ok(ApiType::new(name, ApiKind::Combo(ts))),
                    Err(e) => Err(e),
                }
            },
            OaSchema::OneOf(of) => {
                match Self::parse_items(&of.items, &parents, types, schemas) {
                    Ok(uni) => Ok(one_of_type(name, uni)),
                    Err(e) => Err(e),
                }
            },
            OaSchema::Array(a) => {
                let (nullable, _) = match nullable_base(&a.schema_type) {
                    Ok(p) => p,
                    Err(e) => {
                        return Err(e);
                    },
                };
                match &a.items {
                    ArrayItems::False => {
                        if a.prefix_items.len() == 0 {
                            Err(GenError::UnsupportedSchema("array items".to_owned()))
                        } else {
                            match Self::parse_prefix(&a.prefix_items, &parents, types, schemas) {
                                Ok(ts) => Ok(ApiType::new(name, ApiKind::Tuple(ts))),
                                Err(e) => Err(e),
                            }
                        }
                    },
                    ArrayItems::R(item) => {
                        let it = match Self::parse_openapi(None, item, parents, types, schemas) {
                            Ok(t) => t,
                            Err(e) => {
                                return Err(e);
                            },
                        };
                        let fixed = match (a.max_items, a.min_items) {
                            (Some(mx), Some(mn)) => {
                                if mx == mn {
                                    Some(mx)
                                } else {
                                    None
                                }
                            },
                            _ => None,
                        };
                        let kind = match fixed {
                            Some(len) => ApiKind::Tuple(replicate(&it, len)),
                            None => ApiKind::Array(Box::new(it)),
                        };
                        Ok(wrap_nullable(name, kind, nullable))
                    },
                }
            },
            OaSchema::AnyOf => Err(GenError::UnsupportedSchema("anyOf".to_owned())),
        }
    }

    /// Resolves an ordered property list, threading the reference table
    /// left to right. Computes exactly `spec_resolve_props`.
    fn parse_props(
        props: &Vec<(String, RefOr<OaSchema>)>,
        parents: &AncestorSet,
        types: &mut TypeTable,
        schemas: &SchemaTable,
    ) -> (r: Result<Vec<(String, ApiType)>, GenError>)
        ensures
            ({
                let (sr, sm) = spec_resolve_props(
                    schemas@,
                    props_view(*props),
                    parents@,
                    old(types)@,
                );
                final(types)@ == sm && sr == match r {
                    Ok(fs) => Ok(fields_view_of(fs)),
                    Err(e) => Err(err_view(e)),
                }
            }),
        decreases resolve_measure(schemas@, parents@), *props,
    {
        proof {
            lemma_schema_entries_map_finite(schemas.entries@);
            lemma_names_set_finite(parents.names@);
        }
        let ghost full = props_view(*props);
        let mut out: Vec<(String, ApiType)> = Vec::new();
        proof {
            assert(full.skip(0) =~= full);
            let (ir, im) = spec_resolve_props(schemas@, full, parents@, types@);
            match ir {
                Ok(rest) => {
                    assert(fields_view_of(out) + rest =~= rest);
                },
                Err(_) => (),
            }
        }
        let mut i: usize = 0;
        while i < props.len()
            invariant
                i <= props@.len(),
                out@.len() == i as int,
                full == props_view(*props),
                full.len() == props@.len(),
                forall|j: int|
                    0 <= j < full.len() ==> #[trigger] full[j] == (
                        props@[j].0@,
                        ref_or_view(props@[j].1),
                    ),
                schemas@.dom().finite(),
                parents@.finite(),
                ({
                    let (sr, sm) = spec_resolve_props(schemas@, full, parents@, old(types)@);
                    let (ir, im) = spec_resolve_props(
                        schemas@,
                        full.skip(i as int),
                        parents@,
                        types@,
                    );
                    sm == im && sr == match ir {
                        Ok(rest) => Ok(fields_view_of(out) + rest),
                        Err(e) => Err(e),
                    }
                }),
            decreases props@.len() - i,
        {
            let ghost types0 = types@;
            let pair = &props[i];
            proof {
                assert(decreases_to!(*props => props@[i as int]));
                assert(decreases_to!(props@[i as int] => props@[i as int].1));
            }
            let branch = parents.duplicate();
            let t = match Self::parse_openapi(None, &pair.1, branch, types, schemas) {
                Ok(t) => t,
                Err(e) => {
                    proof {
                        assert(full.skip(i as int).drop_first() =~= full.skip(i as int + 1));
                    }
                    return Err(e);
                },
            };
            let ghost out_prev = out;
            out.push((pair.0.clone(), t));
            i += 1;
            proof {
                let i0 = i as int - 1;
                assert(full.skip(i0).drop_first() =~= full.skip(i0 + 1));
                assert(fields_view_of(out) =~= fields_view_of(out_prev).push(
                    (full[i0].0, ty_view(t)),
                ));
                let (ir_new, im_new) = spec_resolve_props(
                    schemas@,
                    full.skip(i as int),
                    parents@,
                    types@,
                );
                match ir_new {
                    Ok(fields) => lemma_push_concat(
                        fields_view_of(out_prev),
                        (full[i0].0, ty_view(t)),
                        fields,
                    ),
                    Err(_) => (),
                }
            }
        }
        proof {
            assert(full.skip(i as int) =~= Seq::<(Seq<char>, RefOrV)>::empty());
        }
        Ok(out)
    }

    /// Resolves a member list of a union or intersection, threading the
    /// reference table left to right. Computes exactly `spec_resolve_items`.
    fn parse_items(
        items: &Vec<RefOr<OaSchema>>,
        parents: &AncestorSet,
        types: &mut TypeTable,
        schemas: &SchemaTable,
    ) -> (r: Result<Vec<ApiType>, GenError>)
        ensures
            ({
                let (sr, sm) = spec_resolve_items(
                    schemas@,
                    items_list_view(*items),
                    parents@,
                    old(types)@,
                );
                final(types)@ == sm && sr == match r {
                    Ok(ts) => Ok(tys_view_of(ts)),
                    Err(e) => Err(err_view(e)),
                }
            }),
        decreases resolve_measure(schemas@, parents@), *items,
    {
        proof {
            lemma_schema_entries_map_finite(schemas.entries@);
            lemma_names_set_finite(parents.names@);
        }
        let ghost full = items_list_view(*items);
        let mut out: Vec<ApiType> = Vec::new();
        proof {
            assert(full.skip(0) =~= full);
            let (ir, im) = spec_resolve_items(schemas@, full, parents@, types@);
            match ir {
                Ok(rest) => {
                    assert(tys_view_of(out) + rest =~= rest);
                },
                Err(_) => (),
            }
        }
        let mut i: usize = 0;
        while i < items.len()
            invariant
                i <= items@.len(),
                out@.len() == i as int,
                full == items_list_view(*items),
                full.len() == items@.len(),
                forall|j: int|
                    0 <= j < full.len() ==> #[trigger] full[j] == ref_or_view(items@[j]),
                schemas@.dom().finite(),
                parents@.finite(),
                ({
                    let (sr, sm) = spec_resolve_items(schemas@, full, parents@, old(types)@);
                    let (ir, im) = spec_resolve_items(
                        schemas@,
                        full.skip(i as int),
                        parents@,
                        types@,
                    );
                    sm == im && sr == match ir {
                        Ok(rest) => Ok(tys_view_of(out) + rest),
                        Err(e) => Err(e),
                    }
                }),
            decreases items@.len() - i,
        {
            let ghost types0 = types@;
            proof {
                assert(decreases_to!(*items => items@[i as int]));
            }
            let branch = parents.duplicate();
            let t = match Self::parse_openapi(None, &items[i], branch, types, schemas) {
                Ok(t) => t,
                Err(e) => {
                    proof {
                        assert(full.skip(i as int).drop_first() =~= full.skip(i as int + 1));
                    }
                    return Err(e);
                },
            };
            let ghost out_prev = out;
            out.push(t);
            i += 1;
            proof {
                let i0 = i as int - 1;
                assert(full.skip(i0).drop_first() =~= full.skip(i0 + 1));
                assert(tys_view_of(out) =~= tys_view_of(out_prev).push(ty_view(out@.last())));
                let (ir_new, im_new) = spec_resolve_items(
                    schemas@,
                    full.skip(i as int),
                    parents@,
                    types@,
                );
                match ir_new {
                    Ok(ts) => lemma_push_concat(
                        tys_view_of(out_prev),
                        ty_view(out@.last()),
                        ts,
                    ),
                    Err(_) => (),
                }
            }
        }
        proof {
            assert(full.skip(i as int) =~= Seq::<RefOrV>::empty());
        }
        Ok(out)
    }

    /// Resolves positional item schemas, threading the reference table left
    /// to right. Computes exactly `spec_resolve_prefix`.
    fn parse_prefix(
        items: &Vec<OaSchema>,
        parents: &AncestorSet,
        types: &mut TypeTable,
        schemas: &SchemaTable,
    ) -> (r: Result<Vec<ApiType>, GenError>)
        ensures
            ({
                let (sr, sm) = spec_resolve_prefix(
                    schemas@,
                    schemas_list_view(*items),
                    parents@,
                    old(types)@,
                );
                final(types)@ == sm && sr == match r {
                    Ok(ts) => Ok(tys_view_of(ts)),
                    Err(e) => Err(err_view(e)),
                }
            }),
        decreases resolve_measure(schemas@, parents@), *items,
    {
        proof {
            lemma_schema_entries_map_finite(schemas.entries@);
            lemma_names_set_finite(parents.names@);
        }
        let ghost full = schemas_list_view(*items);
        let mut out: Vec<ApiType> = Vec::new();
        proof {
            assert(full.skip(0) =~= full);
            let (ir, im) = spec_resolve_prefix(schemas@, full, parents@, types@);
            match ir {
                Ok(rest) => {
                    assert(tys_view_of(out) + rest =~= rest);
                },
                Err(_) => (),
            }
        }
        let mut i: usize = 0;
        while i < items.len()
            invariant
                i <= items@.len(),
                out@.len() == i as int,
                full == schemas_list_view(*items),
                full.len() == items@.len(),
                forall|j: int| 0 <= j < full.len() ==> #[trigger] full[j] == schema_view(items@[j]),
                schemas@.dom().finite(),
                parents@.finite(),
                ({
                    let (sr, sm) = spec_resolve_prefix(schemas@, full, parents@, old(types)@);
                    let (ir, im) = spec_resolve_prefix(
                        schemas@,
                        full.skip(i as int),
                        parents@,
                        types@,
                    );
                    sm == im && sr == match ir {
                        Ok(rest) => Ok(tys_view_of(out) + rest),
                        Err(e) => Err(e),
                    }
                }),
            decreases items@.len() - i,
        {
            let ghost types0 = types@;
            proof {
                assert(decreases_to!(*items => items@[i as int]));
            }
            let branch = parents.duplicate();
            let t = match Self::parse_schema(None, &items[i], branch, types, schemas) {
                Ok(t) => t,
                Err(e) => {
                    proof {
                        assert(full.skip(i as int).drop_first() =~= full.skip(i as int + 1));
                    }
                    return Err(e);
                },
            };
            let ghost out_prev = out;
            out.push(t);
            i += 1;
            proof {
                let i0 = i as int - 1;
                assert(full.skip(i0).drop_first() =~= full.skip(i0 + 1));
                assert(tys_view_of(out) =~= tys_view_of(out_prev).push(ty_view(out@.last())));
                let (ir_new, im_new) = spec_resolve_prefix(
                    schemas@,
                    full.skip(i as int),
                    parents@,
                    types@,
                );
                match ir_new {
                    Ok(ts) => lemma_push_concat(
                        tys_view_of(out_prev),
                        ty_view(out@.last()),
                        ts,
                    ),
                    Err(_) => (),
                }
            }
        }
        proof {
            assert(full.skip(i as int) =~= Seq::<SchemaV>::empty());
        }
        Ok(out)
    }
}

/// Prepending one element to the rest and appending it to an accumulator
/// meet in the middle.
proof fn lemma_push_concat<T>(a: Seq<T>, h: T, b: Seq<T>)
    ensures
        a + (seq![h] + b) == a.push(h) + b,
{
    assert(a + (seq![h] + b) =~= a.push(h) + b);
}

/// A kind that is fully resolved stays fully resolved under the
/// name-and-nullability wrapping.
proof fn lemma_spec_wrap_wf(name: Option<Seq<char>>, kind: KindV, nullable: bool)
    requires
        kind.wf(),
    ensures
        spec_wrap(name, kind, nullable).wf(),
{
    reveal_with_fuel(TyV::wf, 3);
    reveal_with_fuel(KindV::wf, 3);
    reveal_with_fuel(PrimV::wf, 3);
}

/// A `oneOf` collapse of fully resolved members is fully resolved.
proof fn lemma_one_of_wf(name: Option<Seq<char>>, uni: Seq<TyV>)
    requires
        forall|i: int| 0 <= i < uni.len() ==> (#[trigger] uni[i]).wf(),
    ensures
        spec_one_of(name, uni).wf(),
{
    reveal_with_fuel(TyV::wf, 3);
    reveal_with_fuel(KindV::wf, 3);
    reveal_with_fuel(PrimV::wf, 3);
    lemma_tys_wf_iff(uni);
    if uni.len() == 1 {
        assert(uni[0].wf());
    } else if uni.len() == 2 {
        assert(uni[0].wf());
        assert(uni[1].wf());
    }
}

/// Every type in a reference table is fully resolved.
pub open spec fn wf_memo(memo: Map<Seq<char>, TyV>) -> bool {
    forall|k: Seq<char>| memo.contains_key(k) ==> (#[trigger] memo[k]).wf()
}

/// Resolution never returns the `Unknown` sentinel: a successful outcome is
/// a fully resolved type, and the reference table only ever holds fully
/// resolved types.
pub proof fn lemma_resolve_wf(
    schemas: Map<Seq<char>, RefOrV>,
    name: Option<Seq<char>>,
    value: RefOrV,
    parents: Set<Seq<char>>,
    memo: Map<Seq<char>, TyV>,
)
    requires
        schemas.dom().finite(),
        parents.finite(),
        wf_memo(memo),
    ensures
        ({
            let (r, m) = spec_resolve(schemas, name, value, parents, memo);
            wf_memo(m) && (r is Ok ==> r->Ok_0.wf())
        }),
    decreases resolve_measure(schemas, parents), value,
{
    match value {
        RefOrV::Ref(loc) => {
            let n = spec_ref_name(loc);
            if memo.contains_key(n) {
            } else if parents.contains(n) {
            } else if schemas.contains_key(n) {
                lemma_resolve_wf(schemas, Some(n), schemas[n], parents.insert(n), memo);
            } else {
            }
        },
        RefOrV::T(s) => lemma_resolve_schema_wf(schemas, name, s, parents, memo),
    }
}

pub proof fn lemma_resolve_schema_wf(
    schemas: Map<Seq<char>, RefOrV>,
    name: Option<Seq<char>>,
    s: SchemaV,
    parents: Set<Seq<char>>,
    memo: Map<Seq<char>, TyV>,
)
    requires
        schemas.dom().finite(),
        parents.finite(),
        wf_memo(memo),
    ensures
        ({
            let (r, m) = spec_resolve_schema(schemas, name, s, parents, memo);
            wf_memo(m) && (r is Ok ==> r->Ok_0.wf())
        }),
    decreases resolve_measure(schemas, parents), s,
{
    reveal_with_fuel(TyV::wf, 4);
    reveal_with_fuel(KindV::wf, 4);
    reveal_with_fuel(PrimV::wf, 4);
    match s {
        SchemaV::Object(o) => {
            match spec_nullable_base(o.schema_type) {
                Err(_) => (),
                Ok((nullable, base)) => match base {
                    Type::Object => {
                        lemma_resolve_props_wf(schemas, o.properties, parents, memo);
                        let (r, _) = spec_resolve_props(schemas, o.properties, parents, memo);
                        match r {
                            Ok(fields) => {
                                lemma_fields_wf_iff(fields);
                                assert(KindV::Object(fields).wf());
                                lemma_spec_wrap_wf(name, KindV::Object(fields), nullable);
                            },
                            Err(_) => (),
                        }
                    },
                    Type::String => {
                        match spec_string_kind(o.enum_values, o.format) {
                            Ok(kind) => {
                                assert(kind.wf());
                                lemma_spec_wrap_wf(name, kind, nullable);
                            },
                            Err(_) => (),
                        }
                    },
                    Type::Null => {
                        lemma_spec_wrap_wf(name, KindV::Prim(PrimV::Null), nullable);
                    },
                    Type::Boolean => {
                        lemma_spec_wrap_wf(name, KindV::Prim(PrimV::Bool), nullable);
                    },
                    Type::Integer => {
                        lemma_spec_wrap_wf(name, KindV::Prim(PrimV::Int), nullable);
                    },
                    Type::Number => {
                        lemma_spec_wrap_wf(name, KindV::Prim(PrimV::Float), nullable);
                    },
                    Type::Array => (),
                },
            }
        },
        SchemaV::AllOf(of) => {
            lemma_resolve_items_wf(schemas, of.items, parents, memo);
            let (r, _) = spec_resolve_items(schemas, of.items, parents, memo);
            match r {
                Ok(ts) => {
                    lemma_tys_wf_iff(ts);
                    assert(KindV::Combo(ts).wf());
                },
                Err(_) => (),
            }
        },
        SchemaV::OneOf(of) => {
            lemma_resolve_items_wf(schemas, of.items, parents, memo);
            let (r, _) = spec_resolve_items(schemas, of.items, parents, memo);
            match r {
                Ok(uni) => {
                    lemma_tys_wf_iff(uni);
                    lemma_one_of_wf(name, uni);
                },
                Err(_) => (),
            }
        },
        SchemaV::Array(a) => {
            match spec_nullable_base(a.schema_type) {
                Err(_) => (),
                Ok((nullable, _)) => match a.items {
                    ItemsV::False => {
                        if a.prefix_items.len() > 0 {
                            lemma_resolve_prefix_wf(schemas, a.prefix_items, parents, memo);
                            let (r, _) = spec_resolve_prefix(schemas, a.prefix_items, parents, memo);
                            match r {
                                Ok(ts) => {
                                    lemma_tys_wf_iff(ts);
                                    assert(KindV::Tuple(ts).wf());
                                },
                                Err(_) => (),
                            }
                        }
                    },
                    ItemsV::R(item) => {
                        lemma_resolve_wf(schemas, None, *item, parents, memo);
                        let (r, _) = spec_resolve(schemas, None, *item, parents, memo);
                        match r {
                            Ok(it) => {
                                let kind = if a.max_items == a.min_items && a.max_items is Some {
                                    KindV::Tuple(Seq::new(a.max_items->0 as nat, |i: int| it))
                                } else {
                                    KindV::Array(Box::new(it))
                                };
                                if a.max_items == a.min_items && a.max_items is Some {
                                    let reps = Seq::new(a.max_items->0 as nat, |i: int| it);
                                    lemma_tys_wf_iff(reps);
                                    assert(forall|i: int|
                                        0 <= i < reps.len() ==> (#[trigger] reps[i]).wf());
                                }
                                assert(kind.wf());
                                lemma_spec_wrap_wf(name, kind, nullable);
                            },
                            Err(_) => (),
                        }
                    },
                },
            }
        },
        SchemaV::AnyOf => (),
    }
}

pub proof fn lemma_resolve_props_wf(
    schemas: Map<Seq<char>, RefOrV>,
    props: Seq<(Seq<char>, RefOrV)>,
    parents: Set<Seq<char>>,
    memo: Map<Seq<char>, TyV>,
)
    requires
        schemas.dom().finite(),
        parents.finite(),
        wf_memo(memo),
    ensures
        ({
            let (r, m) = spec_resolve_props(schemas, props, parents, memo);
            wf_memo(m) && (r is Ok ==> forall|i: int|
                0 <= i < r->Ok_0.len() ==> (#[trigger] r->Ok_0[i].1).wf())
        }),
    decreases resolve_measure(schemas, parents), props,
{
    if props.len() == 0 {
    } else {
        lemma_resolve_wf(schemas, None, props[0].1, parents, memo);
        let (r, m1) = spec_resolve(schemas, None, props[0].1, parents, memo);
        match r {
            Ok(t) => {
                lemma_resolve_props_wf(schemas, props.drop_first(), parents, m1);
            },
            Err(_) => (),
        }
    }
}

pub proof fn lemma_resolve_items_wf(
    schemas: Map<Seq<char>, RefOrV>,
    items: Seq<RefOrV>,
    parents: Set<Seq<char>>,
    memo: Map<Seq<char>, TyV>,
)
    requires
        schemas.dom().finite(),
        parents.finite(),
        wf_memo(memo),
    ensures
        ({
            let (r, m) = spec_resolve_items(schemas, items, parents, memo);
            wf_memo(m) && (r is Ok ==> forall|i: int|
                0 <= i < r->Ok_0.len() ==> (#[trigger] r->Ok_0[i]).wf())
        }),
    decreases resolve_measure(schemas, parents), items,
{
    if items.len() == 0 {
    } else {
        lemma_resolve_wf(schemas, None, items[0], parents, memo);
        let (r, m1) = spec_resolve(schemas, None, items[0], parents, memo);
        match r {
            Ok(t) => {
                lemma_resolve_items_wf(schemas, items.drop_first(), parents, m1);
            },
            Err(_) => (),
        }
    }
}

pub proof fn lemma_resolve_prefix_wf(
    schemas: Map<Seq<char>, RefOrV>,
    items: Seq<SchemaV>,
    parents: Set<Seq<char>>,
    memo: Map<Seq<char>, TyV>,
)
    requires
        schemas.dom().finite(),
        parents.finite(),
        wf_memo(memo),
    ensures
        ({
            let (r, m) = spec_resolve_prefix(schemas, items, parents, memo);
            wf_memo(m) && (r is Ok ==> forall|i: int|
                0 <= i < r->Ok_0.len() ==> (#[trigger] r->Ok_0[i]).wf())
        }),
    decreases resolve_measure(schemas, parents), items,
{
    if items.len() == 0 {
    } else {
        lemma_resolve_schema_wf(schemas, None, items[0], parents, memo);
        let (r, m1) = spec_resolve_schema(schemas, None, items[0], parents, memo);
        match r {
            Ok(t) => {
                lemma_resolve_prefix_wf(schemas, items.drop_first(), parents, m1);
            },
            Err(_) => (),
        }
    }
}

} // verus!
