//! Laws of the resolver and the generation pass.
//!
//! Each proof function here states a guarantee of the library as a whole,
//! over the same spec functions its contracts use.

use vstd::prelude::*;

use crate::ir::{KindV, PrimV, TyV};
use crate::raw::{ArrayV, ObjectV, OfV, RefOrV, SchemaTypeV, SchemaV, Type};
use crate::emit_dart::{count_key, pick_key, union_key, union_keys};
use crate::emit_ts::{multipart_fields, multipart_raw};
use crate::raw::{ItemsV};
use crate::resolve::{
    resolve_measure, spec_ref_name, spec_resolve, spec_resolve_items, spec_resolve_prefix,
    spec_resolve_props, spec_resolve_schema, spec_nullable_base, spec_one_of, spec_string_kind,
    spec_wrap,
};
use crate::ErrV;

verus! {

broadcast use
    vstd::seq::group_seq_axioms,
    vstd::std_specs::vec::group_vec_axioms,
    vstd::map::group_map_axioms,
    vstd::set::group_set_axioms,
    vstd::set::Set::lemma_set_insert_diff_decreases;

/// One reference table extends another: every entry of the older table is
/// still present, unchanged.
pub open spec fn table_extends(older: Map<Seq<char>, TyV>, newer: Map<Seq<char>, TyV>) -> bool {
    forall|k: Seq<char>|
        #![trigger newer.contains_key(k)]
        #![trigger older.contains_key(k)]
        older.contains_key(k) ==> newer.contains_key(k) && newer[k] == older[k]
}

proof fn lemma_extends_trans(
    a: Map<Seq<char>, TyV>,
    b: Map<Seq<char>, TyV>,
    c: Map<Seq<char>, TyV>,
)
    requires
        table_extends(a, b),
        table_extends(b, c),
    ensures
        table_extends(a, c),
{
    assert forall|k: Seq<char>|
        a.contains_key(k) implies #[trigger] c.contains_key(k) && c[k] == a[k] by {
        assert(b.contains_key(k) && b[k] == a[k]);
        assert(c.contains_key(k) && c[k] == b[k]);
    }
}

proof fn lemma_extends_insert(
    a: Map<Seq<char>, TyV>,
    b: Map<Seq<char>, TyV>,
    n: Seq<char>,
    t: TyV,
)
    requires
        table_extends(a, b),
        !a.contains_key(n),
    ensures
        table_extends(a, b.insert(n, t)),
{
    assert forall|k: Seq<char>|
        a.contains_key(k) implies #[trigger] b.insert(n, t).contains_key(k) && b.insert(n, t)[k]
        == a[k] by {
        assert(b.contains_key(k) && b[k] == a[k]);
        assert(k != n);
    }
}

/// The reference table only grows: resolution never removes or overwrites
/// an entry, so each named schema is resolved at most once per run.
pub proof fn lemma_memo_only_grows(
    schemas: Map<Seq<char>, RefOrV>,
    name: Option<Seq<char>>,
    value: RefOrV,
    parents: Set<Seq<char>>,
    memo: Map<Seq<char>, TyV>,
)
    requires
        schemas.dom().finite(),
        parents.finite(),
    ensures
        ({
            let (r, m) = spec_resolve(schemas, name, value, parents, memo);
            table_extends(memo, m)
        }),
    decreases resolve_measure(schemas, parents), value,
{
    match value {
        RefOrV::Ref(loc) => {
            let n = spec_ref_name(loc);
            if memo.contains_key(n) {
            } else if parents.contains(n) {
            } else if schemas.contains_key(n) {
                lemma_memo_only_grows(schemas, Some(n), schemas[n], parents.insert(n), memo);
                let (r, mr) = spec_resolve(schemas, Some(n), schemas[n], parents.insert(n), memo);
                match r {
                    Ok(t) => {
                        lemma_extends_insert(memo, mr, n, t);
                    },
                    Err(_) => (),
                }
            } else {
            }
        },
        RefOrV::T(s) => lemma_memo_only_grows_schema(schemas, name, s, parents, memo),
    }
}

pub proof fn lemma_memo_only_grows_schema(
    schemas: Map<Seq<char>, RefOrV>,
    name: Option<Seq<char>>,
    s: SchemaV,
    parents: Set<Seq<char>>,
    memo: Map<Seq<char>, TyV>,
)
    requires
        schemas.dom().finite(),
        parents.finite(),
    ensures
        ({
            let (r, m) = spec_resolve_schema(schemas, name, s, parents, memo);
            table_extends(memo, m)
        }),
    decreases resolve_measure(schemas, parents), s,
{
    match s {
        SchemaV::Object(o) => {
            match spec_nullable_base(o.schema_type) {
                Err(_) => (),
                Ok((nullable, base)) => {
                    if base == Type::Object {
                        lemma_memo_only_grows_props(schemas, o.properties, parents, memo);
                    }
                },
            }
        },
        SchemaV::AllOf(of) => {
            lemma_memo_only_grows_items(schemas, of.items, parents, memo);
        },
        SchemaV::OneOf(of) => {
            lemma_memo_only_grows_items(schemas, of.items, parents, memo);
        },
        SchemaV::Array(a) => {
            match spec_nullable_base(a.schema_type) {
                Err(_) => (),
                Ok(_) => match a.items {
                    ItemsV::False => {
                        if a.prefix_items.len() > 0 {
                            lemma_memo_only_grows_prefix(schemas, a.prefix_items, parents, memo);
                        }
                    },
                    ItemsV::R(item) => {
                        lemma_memo_only_grows(schemas, None, *item, parents, memo);
                    },
                },
            }
        },
        SchemaV::AnyOf => (),
    }
}

pub proof fn lemma_memo_only_grows_props(
    schemas: Map<Seq<char>, RefOrV>,
    props: Seq<(Seq<char>, RefOrV)>,
    parents: Set<Seq<char>>,
    memo: Map<Seq<char>, TyV>,
)
    requires
        schemas.dom().finite(),
        parents.finite(),
    ensures
        ({
            let (r, m) = spec_resolve_props(schemas, props, parents, memo);
            table_extends(memo, m)
        }),
    decreases resolve_measure(schemas, parents), props,
{
    if props.len() > 0 {
        lemma_memo_only_grows(schemas, None, props[0].1, parents, memo);
        let (r, m1) = spec_resolve(schemas, None, props[0].1, parents, memo);
        match r {
            Ok(_) => {
                lemma_memo_only_grows_props(schemas, props.drop_first(), parents, m1);
                let (_, m2) = spec_resolve_props(schemas, props.drop_first(), parents, m1);
                lemma_extends_trans(memo, m1, m2);
            },
            Err(_) => (),
        }
    }
}

pub proof fn lemma_memo_only_grows_items(
    schemas: Map<Seq<char>, RefOrV>,
    items: Seq<RefOrV>,
    parents: Set<Seq<char>>,
    memo: Map<Seq<char>, TyV>,
)
    requires
        schemas.dom().finite(),
        parents.finite(),
    ensures
        ({
            let (r, m) = spec_resolve_items(schemas, items, parents, memo);
            table_extends(memo, m)
        }),
    decreases resolve_measure(schemas, parents), items,
{
    if items.len() > 0 {
        lemma_memo_only_grows(schemas, None, items[0], parents, memo);
        let (r, m1) = spec_resolve(schemas, None, items[0], parents, memo);
        match r {
            Ok(_) => {
                lemma_memo_only_grows_items(schemas, items.drop_first(), parents, m1);
                let (_, m2) = spec_resolve_items(schemas, items.drop_first(), parents, m1);
                lemma_extends_trans(memo, m1, m2);
            },
            Err(_) => (),
        }
    }
}

pub proof fn lemma_memo_only_grows_prefix(
    schemas: Map<Seq<char>, RefOrV>,
    items: Seq<SchemaV>,
    parents: Set<Seq<char>>,
    memo: Map<Seq<char>, TyV>,
)
    requires
        schemas.dom().finite(),
        parents.finite(),
    ensures
        ({
            let (r, m) = spec_resolve_prefix(schemas, items, parents, memo);
            table_extends(memo, m)
        }),
    decreases resolve_measure(schemas, parents), items,
{
    if items.len() > 0 {
        lemma_memo_only_grows_schema(schemas, None, items[0], parents, memo);
        let (r, m1) = spec_resolve_schema(schemas, None, items[0], parents, memo);
        match r {
            Ok(_) => {
                lemma_memo_only_grows_prefix(schemas, items.drop_first(), parents, m1);
                let (_, m2) = spec_resolve_prefix(schemas, items.drop_first(), parents, m1);
                lemma_extends_trans(memo, m1, m2);
            },
            Err(_) => (),
        }
    }
}

/// Memoization is idempotent: once a reference has resolved successfully,
/// resolving the same reference again—from any other reference site, under
/// any declaration name—returns the very same value and leaves the
/// reference table unchanged. A successful resolution not cut short by a
/// cycle leaves its value registered under its name.
pub proof fn lemma_memoization_idempotent(
    schemas: Map<Seq<char>, RefOrV>,
    name1: Option<Seq<char>>,
    name2: Option<Seq<char>>,
    loc: Seq<char>,
    parents: Set<Seq<char>>,
    memo: Map<Seq<char>, TyV>,
)
    requires
        schemas.dom().finite(),
        parents.finite(),
    ensures
        ({
            let (r1, m1) = spec_resolve(schemas, name1, RefOrV::Ref(loc), parents, memo);
            r1 is Ok ==> spec_resolve(schemas, name2, RefOrV::Ref(loc), parents, m1) == (
                r1,
                m1,
            )
        }),
        ({
            let (r1, m1) = spec_resolve(schemas, name1, RefOrV::Ref(loc), parents, memo);
            let n = spec_ref_name(loc);
            r1 is Ok && !parents.contains(n) ==> m1.contains_key(n) && m1[n] == r1->Ok_0
        }),
{
    let n = spec_ref_name(loc);
    let (r1, m1) = spec_resolve(schemas, name1, RefOrV::Ref(loc), parents, memo);
    if memo.contains_key(n) {
    } else if parents.contains(n) {
    } else if schemas.contains_key(n) {
        let (r, mr) = spec_resolve(schemas, Some(n), schemas[n], parents.insert(n), memo);
        match r {
            Ok(t) => {
                assert(m1 == mr.insert(n, t));
                assert(m1.contains_key(n) && m1[n] == t);
            },
            Err(_) => (),
        }
    } else {
    }
}

/// Nullability normalization, first encoding: an object-shaped schema with
/// the two-element type list `[T, null]` resolves to exactly the `Option`
/// wrapping of what the same schema with plain type `T` resolves to, with
/// the same effect on the reference table.
pub proof fn lemma_nullable_type_list(
    schemas: Map<Seq<char>, RefOrV>,
    name: Option<Seq<char>>,
    o: ObjectV,
    t: Type,
    parents: Set<Seq<char>>,
    memo: Map<Seq<char>, TyV>,
)
    requires
        schemas.dom().finite(),
        parents.finite(),
        o.schema_type == SchemaTypeV::Type(t),
    ensures
        ({
            let o2 = ObjectV {
                schema_type: SchemaTypeV::Array(seq![t, Type::Null]),
                format: o.format,
                enum_values: o.enum_values,
                properties: o.properties,
                user_defined: o.user_defined,
            };
            let (r1, m1) = spec_resolve_schema(schemas, name, SchemaV::Object(o), parents, memo);
            let (r2, m2) = spec_resolve_schema(schemas, name, SchemaV::Object(o2), parents, memo);
            m2 == m1 && match r1 {
                Ok(t1) => r2 == Ok::<TyV, ErrV>(
                    TyV {
                        name,
                        kind: KindV::Prim(
                            PrimV::Option(Box::new(TyV { name: None, kind: t1.kind })),
                        ),
                    },
                ),
                Err(e) => r2 == Err::<TyV, ErrV>(e),
            }
        }),
{
    let ts = seq![t, Type::Null];
    assert(ts.len() == 2 && ts[1] == Type::Null && ts[0] == t);
    assert(spec_nullable_base(SchemaTypeV::Type(t)) == Ok::<(bool, Type), ErrV>((false, t)));
    assert(spec_nullable_base(SchemaTypeV::Array(ts)) == Ok::<(bool, Type), ErrV>((true, t)));
    match t {
        Type::Object => {
            let (r, _) = spec_resolve_props(schemas, o.properties, parents, memo);
            match r {
                Ok(fields) => {
                    assert(spec_wrap(name, KindV::Object(fields), false).kind == KindV::Object(
                        fields,
                    ));
                },
                Err(_) => (),
            }
        },
        Type::String => {
            match spec_string_kind(o.enum_values, o.format) {
                Ok(kind) => {
                    assert(spec_wrap(name, kind, false).kind == kind);
                },
                Err(_) => (),
            }
        },
        _ => (),
    }
}

/// Nullability normalization, second encoding: a two-member `oneOf` of
/// which exactly one member resolves to null collapses to the `Option`
/// wrapping of the other member's resolution.
pub proof fn lemma_nullable_oneof(
    schemas: Map<Seq<char>, RefOrV>,
    name: Option<Seq<char>>,
    x: RefOrV,
    nn: RefOrV,
    ud: bool,
    parents: Set<Seq<char>>,
    memo: Map<Seq<char>, TyV>,
)
    requires
        schemas.dom().finite(),
        parents.finite(),
        ({
            let (rx, mx) = spec_resolve(schemas, None, x, parents, memo);
            rx is Ok && rx->Ok_0.kind != KindV::Prim(PrimV::Null)
        }),
        ({
            let (rx, mx) = spec_resolve(schemas, None, x, parents, memo);
            let (rn, mn) = spec_resolve(schemas, None, nn, parents, mx);
            rn is Ok && rn->Ok_0.kind == KindV::Prim(PrimV::Null)
        }),
    ensures
        ({
            let (rx, mx) = spec_resolve(schemas, None, x, parents, memo);
            let (rn, mn) = spec_resolve(schemas, None, nn, parents, mx);
            spec_resolve_schema(
                schemas,
                name,
                SchemaV::OneOf(OfV { items: seq![x, nn], user_defined: ud }),
                parents,
                memo,
            ) == (
                Ok::<TyV, ErrV>(
                    TyV { name, kind: KindV::Prim(PrimV::Option(Box::new(rx->Ok_0))) },
                ),
                mn,
            )
        }),
{
    reveal_with_fuel(spec_resolve_items, 4);
    let items = seq![x, nn];
    let (rx, mx) = spec_resolve(schemas, None, x, parents, memo);
    let (rn, mn) = spec_resolve(schemas, None, nn, parents, mx);
    assert(items[0] == x);
    assert(items.drop_first() =~= seq![nn]);
    assert(seq![nn][0] == nn);
    assert(seq![nn].drop_first() =~= Seq::<RefOrV>::empty());
    let (ri, mi) = spec_resolve_items(schemas, items, parents, memo);
    assert(seq![rx->Ok_0] + (seq![rn->Ok_0] + Seq::<TyV>::empty()) =~= seq![
        rx->Ok_0,
        rn->Ok_0,
    ]);
    assert(ri == Ok::<Seq<TyV>, ErrV>(seq![rx->Ok_0, rn->Ok_0]) && mi == mn);
    let uni = seq![rx->Ok_0, rn->Ok_0];
    assert(uni.len() == 2 && uni[0] == rx->Ok_0 && uni[1] == rn->Ok_0);
    assert(spec_one_of(name, uni) == TyV {
        name,
        kind: KindV::Prim(PrimV::Option(Box::new(rx->Ok_0))),
    });
}

/// Nullability normalization, third encoding: an array schema carrying the
/// nullable type list resolves to exactly the `Option` wrapping of what
/// the plain array form resolves to.
pub proof fn lemma_nullable_array(
    schemas: Map<Seq<char>, RefOrV>,
    name: Option<Seq<char>>,
    a: ArrayV,
    t: Type,
    parents: Set<Seq<char>>,
    memo: Map<Seq<char>, TyV>,
)
    requires
        schemas.dom().finite(),
        parents.finite(),
        a.schema_type == SchemaTypeV::Type(t),
        a.items is R,
    ensures
        ({
            let a2 = ArrayV {
                schema_type: SchemaTypeV::Array(seq![t, Type::Null]),
                items: a.items,
                prefix_items: a.prefix_items,
                min_items: a.min_items,
                max_items: a.max_items,
                user_defined: a.user_defined,
            };
            let (r1, m1) = spec_resolve_schema(schemas, name, SchemaV::Array(a), parents, memo);
            let (r2, m2) = spec_resolve_schema(schemas, name, SchemaV::Array(a2), parents, memo);
            m2 == m1 && match r1 {
                Ok(t1) => r2 == Ok::<TyV, ErrV>(
                    TyV {
                        name,
                        kind: KindV::Prim(
                            PrimV::Option(Box::new(TyV { name: None, kind: t1.kind })),
                        ),
                    },
                ),
                Err(e) => r2 == Err::<TyV, ErrV>(e),
            }
        }),
{
    let ts = seq![t, Type::Null];
    assert(ts.len() == 2 && ts[1] == Type::Null && ts[0] == t);
    assert(spec_nullable_base(SchemaTypeV::Type(t)) == Ok::<(bool, Type), ErrV>((false, t)));
    assert(spec_nullable_base(SchemaTypeV::Array(ts)) == Ok::<(bool, Type), ErrV>((true, t)));
    let (ri, mi) = spec_resolve(schemas, None, *(a.items->0), parents, memo);
    match ri {
        Ok(it) => {
            let kind = if a.max_items == a.min_items && a.max_items is Some {
                KindV::Tuple(Seq::new(a.max_items->0 as nat, |i: int| it))
            } else {
                KindV::Array(Box::new(it))
            };
            assert(spec_wrap(name, kind, false).kind == kind);
        },
        Err(_) => (),
    }
}

/// Tuple collapse: an array schema whose minimum and maximum item counts
/// coincide resolves its single item schema once and becomes a fixed-arity
/// tuple of that many copies, never an `Array`.
pub proof fn lemma_tuple_collapse(
    schemas: Map<Seq<char>, RefOrV>,
    name: Option<Seq<char>>,
    a: ArrayV,
    t: Type,
    count: usize,
    parents: Set<Seq<char>>,
    memo: Map<Seq<char>, TyV>,
)
    requires
        schemas.dom().finite(),
        parents.finite(),
        a.schema_type == SchemaTypeV::Type(t),
        a.items is R,
        a.min_items == Some(count),
        a.max_items == Some(count),
    ensures
        ({
            let (ri, mi) = spec_resolve(schemas, None, *(a.items->0), parents, memo);
            ri is Ok ==> spec_resolve_schema(schemas, name, SchemaV::Array(a), parents, memo)
                == (
                Ok::<TyV, ErrV>(
                    TyV {
                        name,
                        kind: KindV::Tuple(Seq::new(count as nat, |i: int| ri->Ok_0)),
                    },
                ),
                mi,
            )
        }),
{
    assert(spec_nullable_base(SchemaTypeV::Type(t)) == Ok::<(bool, Type), ErrV>((false, t)));
    let (ri, mi) = spec_resolve(schemas, None, *(a.items->0), parents, memo);
    match ri {
        Ok(it) => {
            assert(spec_wrap(name, KindV::Tuple(Seq::new(count as nat, |i: int| it)), false)
                == TyV { name, kind: KindV::Tuple(Seq::new(count as nat, |i: int| it)) });
        },
        Err(_) => (),
    }
}

/// The winner of the scan from position `i` on: it comes from the
/// candidate list, no candidate outvotes it, and every candidate seen
/// before it scored strictly fewer votes.
proof fn lemma_pick_key_props(
    uni: Seq<TyV>,
    keys: Seq<Seq<char>>,
    i: int,
    bk: Seq<char>,
    bc: nat,
    w: int,
)
    requires
        0 <= w < i <= keys.len(),
        keys[w] == bk,
        count_key(0, uni, bk) == bc,
        forall|j: int| 0 <= j < i ==> count_key(0, uni, #[trigger] keys[j]) <= bc,
        forall|j: int| 0 <= j < w ==> count_key(0, uni, #[trigger] keys[j]) < bc,
    ensures
        ({
            let r = pick_key(uni, keys, i, bk, bc);
            exists|v: int|
                0 <= v < keys.len() && #[trigger] keys[v] == r && (forall|j: int|
                    0 <= j < keys.len() ==> count_key(0, uni, #[trigger] keys[j]) <= count_key(
                        0,
                        uni,
                        r,
                    )) && (forall|j: int|
                    0 <= j < v ==> count_key(0, uni, #[trigger] keys[j]) < count_key(0, uni, r))
        }),
    decreases keys.len() - i,
{
    let r = pick_key(uni, keys, i, bk, bc);
    if i >= keys.len() {
        assert(r == bk);
        assert(0 <= w < keys.len() && keys[w] == r && (forall|j: int|
            0 <= j < keys.len() ==> count_key(0, uni, #[trigger] keys[j]) <= count_key(
                0,
                uni,
                r,
            )) && (forall|j: int|
            0 <= j < w ==> count_key(0, uni, #[trigger] keys[j]) < count_key(0, uni, r)));
    } else {
        let c = count_key(0, uni, keys[i]);
        if c > bc {
            lemma_pick_key_props(uni, keys, i + 1, keys[i], c, i);
        } else {
            lemma_pick_key_props(uni, keys, i + 1, bk, bc, w);
        }
    }
}

/// Discriminant majority vote: when a union has singleton-enum candidate
/// fields, the chosen discriminant is one of them, no candidate occurs as
/// a singleton enum across more alternatives than it, and among tied
/// candidates the one that appears first wins.
pub proof fn lemma_discriminant_majority(uni: Seq<TyV>)
    ensures
        ({
            match union_key(uni) {
                None => union_keys(Seq::empty(), uni).len() == 0,
                Some(uk) => {
                    let keys = union_keys(Seq::empty(), uni);
                    exists|v: int|
                        0 <= v < keys.len() && #[trigger] keys[v] == uk && (forall|j: int|
                            0 <= j < keys.len() ==> count_key(
                                0,
                                uni,
                                #[trigger] keys[j],
                            ) <= count_key(0, uni, uk)) && (forall|j: int|
                            0 <= j < v ==> count_key(0, uni, #[trigger] keys[j]) < count_key(
                                0,
                                uni,
                                uk,
                            ))
                },
            }
        }),
{
    let keys = union_keys(Seq::empty(), uni);
    if keys.len() > 0 {
        lemma_pick_key_props(uni, keys, 1, keys[0], count_key(0, uni, keys[0]), 0);
    }
}

/// Multipart encoding: a body with a required string field and an
/// optional file field attaches the string unconditionally and the file
/// only when present, whatever the two fields are called.
pub proof fn lemma_multipart_attachment(title: Seq<char>, avatar: Seq<char>)
    ensures
        ({
            let fields = seq![
                (title, TyV { name: None, kind: KindV::Prim(PrimV::Str) }),
                (
                    avatar,
                    TyV {
                        name: None,
                        kind: KindV::Prim(
                            PrimV::Option(
                                Box::new(TyV { name: None, kind: KindV::Prim(PrimV::File) }),
                            ),
                        ),
                    },
                ),
            ];
            multipart_fields(fields) == multipart_raw(title) + ("body."@ + avatar + " && "@
                + multipart_raw(avatar))
        }),
{
    reveal_with_fuel(multipart_fields, 3);
    let t_entry = (title, TyV { name: None, kind: KindV::Prim(PrimV::Str) });
    let a_entry = (
        avatar,
        TyV {
            name: None,
            kind: KindV::Prim(
                PrimV::Option(Box::new(TyV { name: None, kind: KindV::Prim(PrimV::File) })),
            ),
        },
    );
    let fields = seq![t_entry, a_entry];
    assert(fields.drop_last() =~= seq![t_entry]);
    assert(seq![t_entry].drop_last() =~= Seq::<(Seq<char>, TyV)>::empty());
    assert(fields.last() == a_entry);
    assert(seq![t_entry].last() == t_entry);
    assert(multipart_fields(seq![t_entry]) =~= multipart_raw(title));
    assert(multipart_fields(fields) =~= multipart_raw(title) + ("body."@ + avatar + " && "@
        + multipart_raw(avatar)));
}

/// Determinism: generation is a function of the document's content alone,
/// so two runs over byte-identical input produce byte-identical output.
pub proof fn lemma_generation_deterministic(
    a: crate::generate::OpenApiV,
    b: crate::generate::OpenApiV,
)
    requires
        a == b,
    ensures
        crate::generate::spec_generate_ts(a) == crate::generate::spec_generate_ts(b),
{
}

} // verus!
