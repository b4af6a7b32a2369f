//! The Dart emitter: renders IR types as Dart declarations.
//!
//! The `dart_*` spec functions define the rendered text of every IR shape;
//! the executable emitters are proved to produce exactly that text. Union
//! rendering synthesizes a discriminated union: the tag field is chosen by
//! a majority vote over singleton-enum fields, with ties broken by first
//! appearance, and a union for which no tag can be found (or whose members
//! are not object-shaped) renders as an untagged alias instead.

use vstd::prelude::*;

use crate::ir::{
    fields_view_of, lemma_fields_wf_iff, lemma_tys_wf_iff, ty_view, tys_view_of, ApiKind, ApiPrim,
    ApiType, KindV, PrimV, TyV,
};
use crate::tables::str_eq;
use crate::text::{push_char, spec_upper, spec_upper_char, upper_char};

verus! {

broadcast use vstd::seq::group_seq_axioms, vstd::std_specs::vec::group_vec_axioms;

// ------------------------------------------------------------------
// snake_case to PascalCase
// ------------------------------------------------------------------

/// `snake_case` turned into `PascalCase`: an underscore is dropped and the
/// letter after it (and the first letter) is uppercased.
pub open spec fn spec_snake_to_pascal_from(s: Seq<char>, cap: bool) -> Seq<char>
    decreases s.len(),
{
    if s.len() == 0 {
        Seq::empty()
    } else if s[0] == '_' {
        spec_snake_to_pascal_from(s.drop_first(), true)
    } else {
        seq![
            if cap {
                spec_upper_char(s[0])
            } else {
                s[0]
            },
        ] + spec_snake_to_pascal_from(s.drop_first(), false)
    }
}

pub open spec fn spec_snake_to_pascal(s: Seq<char>) -> Seq<char> {
    spec_snake_to_pascal_from(s, true)
}

/// `snake_case` turned into `PascalCase`.
pub fn snake_to_pascal(value: &str) -> (r: String)
    ensures
        r@ == spec_snake_to_pascal(value@),
{
    let n = value.unicode_len();
    let mut out = String::new();
    let mut cap = true;
    let mut i: usize = 0;
    proof {
        assert(value@.skip(0) =~= value@);
        assert(out@ + spec_snake_to_pascal_from(value@, true) =~= spec_snake_to_pascal_from(
            value@,
            true,
        ));
    }
    while i < n
        invariant
            i <= n,
            n == value@.len(),
            spec_snake_to_pascal(value@) == out@ + spec_snake_to_pascal_from(
                value@.skip(i as int),
                cap,
            ),
        decreases n - i,
    {
        let c = value.get_char(i);
        proof {
            assert(value@.skip(i as int)[0] == value@[i as int]);
            assert(value@.skip(i as int).drop_first() =~= value@.skip(i as int + 1));
        }
        if c == '_' {
            cap = true;
        } else {
            let o = if cap {
                upper_char(c)
            } else {
                c
            };
            let ghost out_prev = out@;
            push_char(&mut out, o);
            proof {
                assert(out@ + spec_snake_to_pascal_from(value@.skip(i as int + 1), false)
                    =~= out_prev + (seq![o] + spec_snake_to_pascal_from(
                    value@.skip(i as int + 1),
                    false,
                )));
            }
            cap = false;
        }
        i += 1;
    }
    proof {
        assert(value@.skip(n as int) =~= Seq::<char>::empty());
        assert(out@ + spec_snake_to_pascal_from(Seq::<char>::empty(), cap) =~= out@);
    }
    out
}

// ------------------------------------------------------------------
// Type references
// ------------------------------------------------------------------

/// The Dart text of a primitive.
pub open spec fn dart_prim(p: PrimV, for_input: bool) -> Seq<char>
    decreases p, 1int,
{
    match p {
        PrimV::Null => "null"@,
        PrimV::Str => "String"@,
        PrimV::Int => "int"@,
        PrimV::Float => "double"@,
        PrimV::File => "http.MultipartFile"@,
        PrimV::Bool => "bool"@,
        PrimV::Option(t) => dart_ref_or_body(*t, for_input) + "?"@,
    }
}

/// The Dart text of an IR node where it is used: its name if it has one;
/// otherwise primitives, inline record types, lists and references render
/// structurally, and every other anonymous shape falls back to `dynamic`.
pub open spec fn dart_ref_or_body(tv: TyV, for_input: bool) -> Seq<char>
    decreases tv, 2int,
{
    match tv.name {
        Some(n) => n,
        None => match tv.kind {
            KindV::Prim(p) => dart_prim(p, for_input),
            KindV::Object(fields) => "({ "@ + dart_rec_fields(fields, for_input) + " })"@,
            KindV::Array(a) => "List<"@ + dart_ref_or_body(*a, for_input) + ">"@,
            KindV::Ref(r) => r,
            KindV::StrEnum(_) => "String"@,
            _ => "dynamic"@,
        },
    }
}

/// Record fields as `type name,` runs.
pub open spec fn dart_rec_fields(fields: Seq<(Seq<char>, TyV)>, for_input: bool) -> Seq<char>
    decreases fields, 3int,
{
    if fields.len() == 0 {
        Seq::empty()
    } else {
        dart_rec_fields(fields.drop_last(), for_input) + dart_ref_or_body(
            fields.last().1,
            for_input,
        ) + " "@ + fields.last().0 + ","@
    }
}

// ------------------------------------------------------------------
// Discriminated-union synthesis
// ------------------------------------------------------------------

/// A field value that is a closed enumeration of exactly one literal.
pub open spec fn singleton_enum(tv: TyV) -> bool {
    tv.kind is StrEnum && tv.kind->StrEnum_0.len() == 1
}

/// The object fields contributed by the members of an intersection, in
/// member order; non-object members contribute nothing.
pub open spec fn combo_fields(ts: Seq<TyV>) -> Seq<(Seq<char>, TyV)>
    decreases ts,
{
    if ts.len() == 0 {
        Seq::empty()
    } else {
        combo_fields(ts.drop_last()) + (match ts.last().kind {
            KindV::Object(fs) => fs,
            _ => Seq::empty(),
        })
    }
}

/// The last union member of an intersection, if any.
pub open spec fn combo_union(ts: Seq<TyV>) -> Option<Seq<TyV>>
    decreases ts,
{
    if ts.len() == 0 {
        None
    } else {
        match ts.last().kind {
            KindV::Union(u) => Some(u),
            _ => combo_union(ts.drop_last()),
        }
    }
}

/// The fields of one union alternative: its own object fields, or the
/// fields of its intersection members.
pub open spec fn alt_fields(tv: TyV) -> Seq<(Seq<char>, TyV)> {
    match tv.kind {
        KindV::Object(fs) => fs,
        KindV::Combo(ms) => combo_fields(ms),
        _ => Seq::empty(),
    }
}

/// Whether every member of an intersection is an object.
pub open spec fn combo_members_objectish(ts: Seq<TyV>) -> bool
    decreases ts,
{
    ts.len() == 0 || (combo_members_objectish(ts.drop_last()) && ts.last().kind is Object)
}

/// An alternative a discriminated union can be synthesized from: an object,
/// or an intersection of objects.
pub open spec fn alt_objectish(tv: TyV) -> bool {
    tv.kind is Object || (tv.kind is Combo && combo_members_objectish(tv.kind->Combo_0))
}

/// Whether every alternative of a union is object-shaped.
pub open spec fn alts_objectish(uni: Seq<TyV>) -> bool
    decreases uni,
{
    uni.len() == 0 || (alts_objectish(uni.drop_last()) && alt_objectish(uni.last()))
}

/// Candidate discriminant names found in one field list, appended to an
/// accumulator in order of first appearance.
pub open spec fn add_keys(acc: Seq<Seq<char>>, fields: Seq<(Seq<char>, TyV)>) -> Seq<Seq<char>>
    decreases fields,
{
    if fields.len() == 0 {
        acc
    } else {
        let prev = add_keys(acc, fields.drop_last());
        if singleton_enum(fields.last().1) && !prev.contains(fields.last().0) {
            prev.push(fields.last().0)
        } else {
            prev
        }
    }
}

/// Candidate discriminant names over all alternatives, in order of first
/// appearance.
pub open spec fn union_keys(acc: Seq<Seq<char>>, uni: Seq<TyV>) -> Seq<Seq<char>>
    decreases uni,
{
    if uni.len() == 0 {
        acc
    } else {
        add_keys(union_keys(acc, uni.drop_last()), alt_fields(uni.last()))
    }
}

/// One more vote, saturating at the machine limit.
pub open spec fn sat_inc(c: nat) -> nat {
    if c < usize::MAX as nat {
        c + 1
    } else {
        c
    }
}

/// Votes for a name within one field list, on top of an accumulator.
pub open spec fn count_in_fields(acc: nat, fields: Seq<(Seq<char>, TyV)>, k: Seq<char>) -> nat
    decreases fields,
{
    if fields.len() == 0 {
        acc
    } else {
        let a = count_in_fields(acc, fields.drop_last(), k);
        if fields.last().0 == k && singleton_enum(fields.last().1) {
            sat_inc(a)
        } else {
            a
        }
    }
}

/// Votes for a name over all alternatives.
pub open spec fn count_key(acc: nat, uni: Seq<TyV>, k: Seq<char>) -> nat
    decreases uni,
{
    if uni.len() == 0 {
        acc
    } else {
        count_in_fields(count_key(acc, uni.drop_last(), k), alt_fields(uni.last()), k)
    }
}

/// The winning name among the candidates from position `i` on, given the
/// best so far; only a strictly greater count replaces it, so the earliest
/// of tied candidates wins.
pub open spec fn pick_key(uni: Seq<TyV>, keys: Seq<Seq<char>>, i: int, bk: Seq<char>, bc: nat)
    -> Seq<char>
    decreases keys.len() - i,
{
    if i < 0 || i >= keys.len() {
        bk
    } else {
        let c = count_key(0, uni, keys[i]);
        if c > bc {
            pick_key(uni, keys, i + 1, keys[i], c)
        } else {
            pick_key(uni, keys, i + 1, bk, bc)
        }
    }
}

/// The discriminant of a union: the candidate name with the most votes,
/// ties broken by first appearance. `None` when no candidate exists.
pub open spec fn union_key(uni: Seq<TyV>) -> Option<Seq<char>> {
    let keys = union_keys(Seq::empty(), uni);
    if keys.len() == 0 {
        None
    } else {
        Some(pick_key(uni, keys, 1, keys[0], count_key(0, uni, keys[0])))
    }
}

/// The variant identifier and field text of one alternative: the last
/// discriminant field with at least one literal names the variant, every
/// other field becomes a required named parameter.
pub open spec fn alt_parts(fields: Seq<(Seq<char>, TyV)>, uk: Seq<char>, for_input: bool) -> (
    Seq<char>,
    Seq<char>,
)
    decreases fields,
{
    if fields.len() == 0 {
        (Seq::empty(), Seq::empty())
    } else {
        let (vk, inner) = alt_parts(fields.drop_last(), uk, for_input);
        let f = fields.last();
        if f.0 == uk && f.1.kind is StrEnum && f.1.kind->StrEnum_0.len() > 0 {
            (spec_snake_to_pascal(f.1.kind->StrEnum_0[0]), inner)
        } else {
            (
                vk,
                inner + "required "@ + dart_ref_or_body(f.1, for_input) + " "@ + f.0 + ",\n"@,
            )
        }
    }
}

/// The factory line of one alternative.
pub open spec fn alt_var(
    tv: TyV,
    added: Seq<(Seq<char>, TyV)>,
    uk: Seq<char>,
    name: Seq<char>,
    for_input: bool,
) -> Seq<char> {
    let (vk, inner) = alt_parts(added + alt_fields(tv), uk, for_input);
    if inner.len() == 0 {
        "const factory "@ + name + "."@ + vk + "() = "@ + name + vk + ";\n"@
    } else {
        "const factory "@ + name + "."@ + vk + "({"@ + inner + "}) = "@ + name + vk + ";\n"@
    }
}

/// The factory lines of all alternatives.
pub open spec fn union_vars(
    uni: Seq<TyV>,
    added: Seq<(Seq<char>, TyV)>,
    uk: Seq<char>,
    name: Seq<char>,
    for_input: bool,
) -> Seq<char>
    decreases uni,
{
    if uni.len() == 0 {
        Seq::empty()
    } else {
        union_vars(uni.drop_last(), added, uk, name, for_input) + alt_var(
            uni.last(),
            added,
            uk,
            name,
            for_input,
        )
    }
}

/// An untagged fallback alias, used when no discriminant can be found or
/// the alternatives are not object-shaped.
pub open spec fn dart_untagged(name: Seq<char>) -> Seq<char> {
    "typedef "@ + name + " = Object;\n"@
}

/// The Dart text of a union declaration: a tagged union class when a
/// discriminant exists, an untagged alias otherwise.
pub open spec fn dart_union_text(
    name: Seq<char>,
    uni: Seq<TyV>,
    added: Seq<(Seq<char>, TyV)>,
    for_input: bool,
) -> Seq<char> {
    if !alts_objectish(uni) {
        dart_untagged(name)
    } else {
        match union_key(uni) {
            None => dart_untagged(name),
            Some(uk) => "@Freezed(unionKey: '"@ + uk
                + "', unionValueCase: FreezedUnionCase.snake)\nclass "@ + name + " with _$"@
                + name + " {\n    "@ + union_vars(uni, added, uk, name, for_input)
                + "\n\n    factory "@ + name + ".fromJson(JsonObject json) => _$"@ + name
                + "FromJson(json);\n}\n"@,
        }
    }
}

// ------------------------------------------------------------------
// Object and enum declarations
// ------------------------------------------------------------------

/// Whether some field name starts with an underscore.
pub open spec fn has_private(fields: Seq<(Seq<char>, TyV)>) -> bool
    decreases fields,
{
    fields.len() != 0 && (has_private(fields.drop_last()) || (fields.last().0.len() > 0
        && fields.last().0[0] == '_'))
}

/// A field name with one leading underscore removed.
pub open spec fn strip_underscore(p: Seq<char>) -> Seq<char> {
    if p.len() > 0 && p[0] == '_' {
        p.subrange(1, p.len() as int)
    } else {
        p
    }
}

/// Record-typedef fields as `type name,\n` runs.
pub open spec fn dart_typedef_fields(fields: Seq<(Seq<char>, TyV)>, for_input: bool) -> Seq<char>
    decreases fields,
{
    if fields.len() == 0 {
        Seq::empty()
    } else {
        dart_typedef_fields(fields.drop_last(), for_input) + dart_ref_or_body(
            fields.last().1,
            for_input,
        ) + " "@ + fields.last().0 + ",\n"@
    }
}

/// The four text runs of a plain Dart class: field declarations,
/// constructor parameters, JSON reads, and JSON writes.
pub open spec fn dart_class_parts(fields: Seq<(Seq<char>, TyV)>, for_input: bool) -> (
    Seq<char>,
    Seq<char>,
    Seq<char>,
    Seq<char>,
)
    decreases fields,
{
    if fields.len() == 0 {
        (Seq::empty(), Seq::empty(), Seq::empty(), Seq::empty())
    } else {
        let (props, init, fj, ij) = dart_class_parts(fields.drop_last(), for_input);
        let f = fields.last();
        let pn = strip_underscore(f.0);
        (
            props + "final "@ + dart_ref_or_body(f.1, for_input) + " "@ + pn + ";\n"@,
            init + "required this."@ + pn + ","@,
            fj + pn + ": json['"@ + f.0 + "'],\n"@,
            ij + "'"@ + f.0 + "': "@ + pn + ","@,
        )
    }
}

/// The Dart text of an object declaration: a record typedef, or, when a
/// field name starts with an underscore, a class with JSON conversion.
pub open spec fn dart_object_text(
    name: Seq<char>,
    fields: Seq<(Seq<char>, TyV)>,
    for_input: bool,
) -> Seq<char> {
    if !has_private(fields) {
        "typedef "@ + name + " = ({"@ + dart_typedef_fields(fields, for_input) + "});"@
    } else {
        let (props, init, fj, ij) = dart_class_parts(fields, for_input);
        "class "@ + name + " {\n    "@ + props + "\n\n    "@ + name + "({ "@ + init
            + " });\n\n    factory "@ + name
            + ".fromJson(JsonObject json) {\n        return "@ + name + "("@ + fj
            + ");\n    }\n\n    JsonObject toJson() => {\n        "@ + ij + "\n    };\n}\n"@
    }
}

/// The constant declarations of an enum class, one per literal.
pub open spec fn dart_enum_consts(name: Seq<char>, ls: Seq<Seq<char>>) -> Seq<char>
    decreases ls,
{
    if ls.len() == 0 {
        Seq::empty()
    } else {
        dart_enum_consts(name, ls.drop_last()) + "    static const "@ + spec_upper(ls.last())
            + " = "@ + name + "._('"@ + ls.last() + "');\n"@
    }
}

/// The uppercased literal names, joined by commas.
pub open spec fn dart_enum_names(ls: Seq<Seq<char>>) -> Seq<char>
    decreases ls,
{
    if ls.len() == 0 {
        Seq::empty()
    } else if ls.len() == 1 {
        spec_upper(ls[0])
    } else {
        dart_enum_names(ls.drop_last()) + ","@ + spec_upper(ls.last())
    }
}

/// The Dart text of a closed string-enumeration class.
pub open spec fn dart_enum_class(name: Seq<char>, ls: Seq<Seq<char>>) -> Seq<char> {
    "class "@ + name + " {\n    final String value;\n    const "@ + name
        + "._(this.value);\n    \n"@ + dart_enum_consts(name, ls)
        + "\n    \n    static const values = ["@ + dart_enum_names(ls)
        + "];\n\n    factory "@ + name
        + ".fromJson(String json) {\n        return values.firstWhere((v) => v.value == json);\n    }\n\n    String toJson() => value;\n}\n"@
}

/// The Dart text of one standalone type declaration.
pub open spec fn dart_def(tv: TyV, for_input: bool) -> Seq<char> {
    let name = tv.name->0;
    match tv.kind {
        KindV::Unknown => Seq::empty(),
        KindV::Recursive => "typedef "@ + name + " = "@ + name + ";\n"@,
        KindV::Ref(r) => "typedef "@ + name + " = "@ + r + ";\n"@,
        KindV::Prim(p) => "typedef "@ + name + " = "@ + dart_prim(p, for_input) + ";\n"@,
        KindV::StrEnum(ls) => dart_enum_class(name, ls),
        KindV::Array(a) => "typedef "@ + name + " = List<"@ + dart_ref_or_body(*a, for_input)
            + ">;"@,
        KindV::Object(fs) => dart_object_text(name, fs, for_input),
        KindV::Combo(ms) => match combo_union(ms) {
            Some(u) => dart_union_text(name, u, combo_fields(ms), for_input),
            None => dart_object_text(name, combo_fields(ms), for_input),
        },
        KindV::Union(u) => dart_union_text(name, u, Seq::empty(), for_input),
        KindV::Tuple(_) => "// Tuple: "@ + name,
    }
}

impl ApiPrim {
    /// The Dart name of this primitive.
    pub fn dart(&self, for_input: bool) -> (r: String)
        requires
            self@.wf(),
        ensures
            r@ == dart_prim(self@, for_input),
        decreases *self, 1int,
    {
        match self {
            ApiPrim::Null => "null".to_owned(),
            ApiPrim::Str => "String".to_owned(),
            ApiPrim::Int => "int".to_owned(),
            ApiPrim::Float => "double".to_owned(),
            ApiPrim::File => "http.MultipartFile".to_owned(),
            ApiPrim::Bool => "bool".to_owned(),
            ApiPrim::Option(opt) => {
                let mut out = (**opt).ref_or_body_dart(for_input);
                out.append("?");
                out
            },
        }
    }
}

/// A union is object-shaped exactly when each alternative is.
pub proof fn lemma_alts_objectish_iff(uni: Seq<TyV>)
    ensures
        alts_objectish(uni) <==> (forall|i: int|
            0 <= i < uni.len() ==> alt_objectish(#[trigger] uni[i])),
    decreases uni.len(),
{
    if uni.len() > 0 {
        lemma_alts_objectish_iff(uni.drop_last());
        assert(uni.last() == uni[uni.len() - 1]);
        assert forall|i: int| 0 <= i < uni.len() - 1 implies uni.drop_last()[i] == uni[i] by {}
        if alts_objectish(uni) {
            assert forall|i: int| 0 <= i < uni.len() implies alt_objectish(#[trigger] uni[i]) by {
                if i < uni.len() - 1 {
                    assert(alt_objectish(uni.drop_last()[i]));
                }
            }
        }
        if forall|i: int| 0 <= i < uni.len() ==> alt_objectish(#[trigger] uni[i]) {
            assert forall|i: int|
                0 <= i < uni.drop_last().len() implies alt_objectish(
                #[trigger] uni.drop_last()[i],
            ) by {
                assert(alt_objectish(uni[i]));
            }
        }
    }
}

/// An intersection is all-objects exactly when each member is an object.
pub proof fn lemma_combo_objectish_iff(ts: Seq<TyV>)
    ensures
        combo_members_objectish(ts) <==> (forall|i: int|
            0 <= i < ts.len() ==> (#[trigger] ts[i]).kind is Object),
    decreases ts.len(),
{
    if ts.len() > 0 {
        lemma_combo_objectish_iff(ts.drop_last());
        assert(ts.last() == ts[ts.len() - 1]);
        assert forall|i: int| 0 <= i < ts.len() - 1 implies ts.drop_last()[i] == ts[i] by {}
        if combo_members_objectish(ts) {
            assert forall|i: int| 0 <= i < ts.len() implies (#[trigger] ts[i]).kind is Object by {
                if i < ts.len() - 1 {
                    assert(ts.drop_last()[i].kind is Object);
                }
            }
        }
        if forall|i: int| 0 <= i < ts.len() ==> (#[trigger] ts[i]).kind is Object {
            assert forall|i: int|
                0 <= i < ts.drop_last().len() implies (#[trigger] ts.drop_last()[i]).kind
                is Object by {
                assert(ts[i].kind is Object);
            }
        }
    }
}

/// Whether a discriminated union can be synthesized from this alternative.
fn alt_objectish_exec(t: &ApiType) -> (r: bool)
    ensures
        r == alt_objectish(t@),
{
    proof {
        crate::ir::lemma_kind_view_variant(t.kind);
    }
    match &t.kind {
        ApiKind::Object(_) => true,
        ApiKind::Combo(ms) => {
            let ghost views = tys_view_of(*ms);
            proof {
                assert(t@.kind == KindV::Combo(views));
                lemma_combo_objectish_iff(views);
            }
            let mut i: usize = 0;
            while i < ms.len()
                invariant
                    i <= ms@.len(),
                    t@.kind == KindV::Combo(views),
                    views == tys_view_of(*ms),
                    views.len() == ms@.len(),
                    forall|j: int| 0 <= j < i as int ==> (#[trigger] views[j]).kind is Object,
                decreases ms@.len() - i,
            {
                proof {
                    assert(views[i as int] == ty_view(ms@[i as int]));
                    crate::ir::lemma_kind_view_variant(ms@[i as int].kind);
                }
                if !matches!(&ms[i].kind, ApiKind::Object(_)) {
                    proof {
                        lemma_combo_objectish_iff(views);
                    }
                    return false;
                }
                i += 1;
            }
            proof {
                lemma_combo_objectish_iff(views);
            }
            true
        },
        _ => false,
    }
}

/// The fields of one union alternative, materialized as an owned list.
fn alt_fields_exec(t: &ApiType) -> (r: Vec<(String, ApiType)>)
    requires
        t@.wf(),
    ensures
        fields_view_of(r) == alt_fields(t@),
        forall|j: int| 0 <= j < r@.len() ==> ty_view((#[trigger] r@[j]).1).wf(),
{
    match &t.kind {
        ApiKind::Object(o) => {
            proof {
                assert(t@.kind == KindV::Object(fields_view_of(*o)));
                assert(crate::ir::fields_wf(fields_view_of(*o)));
                lemma_fields_wf_iff(fields_view_of(*o));
            }
            let r = crate::ir::deep_copy_fields(o);
            proof {
                crate::ir::lemma_fields_view_pointwise(r, *o);
                assert forall|j: int| 0 <= j < r@.len() implies ty_view((#[trigger] r@[j]).1).wf()
                    by {
                    assert(ty_view(r@[j].1) == ty_view(o@[j].1));
                    assert(fields_view_of(*o)[j].1 == ty_view(o@[j].1));
                }
            }
            r
        },
        ApiKind::Combo(ms) => {
            let ghost views = tys_view_of(*ms);
            proof {
                assert(t@.kind == KindV::Combo(views));
                assert(crate::ir::tys_wf(views));
                lemma_tys_wf_iff(views);
            }
            let mut out: Vec<(String, ApiType)> = Vec::new();
            let mut i: usize = 0;
            proof {
                assert(fields_view_of(out) =~= combo_fields(views.take(0)));
            }
            while i < ms.len()
                invariant
                    i <= ms@.len(),
                    views == tys_view_of(*ms),
                    views.len() == ms@.len(),
                    forall|j: int| 0 <= j < views.len() ==> (#[trigger] views[j]).wf(),
                    fields_view_of(out) == combo_fields(views.take(i as int)),
                    forall|j: int|
                        0 <= j < out@.len() ==> ty_view((#[trigger] out@[j]).1).wf(),
                decreases ms@.len() - i,
            {
                let ghost prefix = fields_view_of(out);
                proof {
                    assert(views[i as int] == ty_view(ms@[i as int]));
                    assert(views[i as int].wf());
                    assert(views.take(i as int + 1).drop_last() =~= views.take(i as int));
                    assert(views.take(i as int + 1).last() == views[i as int]);
                }
                match &ms[i].kind {
                    ApiKind::Object(o) => {
                        let ghost ofields = fields_view_of(*o);
                        proof {
                            assert(views[i as int].kind == KindV::Object(ofields));
                            assert(crate::ir::fields_wf(ofields));
                            lemma_fields_wf_iff(ofields);
                        }
                        let mut j: usize = 0;
                        while j < o.len()
                            invariant
                                j <= o@.len(),
                                ofields == fields_view_of(*o),
                                ofields.len() == o@.len(),
                                forall|l: int|
                                    0 <= l < ofields.len() ==> (#[trigger] ofields[l].1).wf(),
                                fields_view_of(out) == prefix + ofields.take(j as int),
                                forall|l: int|
                                    0 <= l < out@.len() ==> ty_view(
                                        (#[trigger] out@[l]).1,
                                    ).wf(),
                            decreases o@.len() - j,
                        {
                            let pair = &o[j];
                            let ghost before = fields_view_of(out);
                            out.push((pair.0.clone(), pair.1.deep_copy()));
                            j += 1;
                            proof {
                                assert(ofields[j as int - 1] == (
                                    o@[j as int - 1].0@,
                                    ty_view(o@[j as int - 1].1),
                                ));
                                assert(fields_view_of(out) =~= before.push(
                                    ofields[j as int - 1],
                                ));
                                assert(prefix + ofields.take(j as int) =~= (prefix
                                    + ofields.take(j as int - 1)).push(ofields[j as int - 1]));
                                assert(ofields[j as int - 1].1.wf());
                                assert(ty_view(out@[out@.len() - 1].1) == ofields[j as int
                                    - 1].1);
                            }
                        }
                        proof {
                            assert(ofields.take(o@.len() as int) =~= ofields);
                            assert(combo_fields(views.take(i as int + 1)) == prefix + ofields);
                        }
                    },
                    _ => {
                        proof {
                            assert(combo_fields(views.take(i as int + 1)) =~= prefix
                                + Seq::<(Seq<char>, TyV)>::empty());
                            assert(prefix + Seq::<(Seq<char>, TyV)>::empty() =~= prefix);
                        }
                    },
                }
                i += 1;
            }
            proof {
                assert(views.take(ms@.len() as int) =~= views);
            }
            out
        },
        _ => {
            let r: Vec<(String, ApiType)> = Vec::new();
            proof {
                crate::ir::lemma_kind_view_variant(t.kind);
                assert(fields_view_of(r) =~= alt_fields(t@));
            }
            r
        },
    }
}

/// Whether a candidate list already holds a name.
fn contains_str(keys: &Vec<String>, n: &str) -> (r: bool)
    ensures
        r == crate::ir::strs_view_of(*keys).contains(n@),
{
    let ghost sv = crate::ir::strs_view_of(*keys);
    let mut i: usize = 0;
    while i < keys.len()
        invariant
            i <= keys@.len(),
            sv == crate::ir::strs_view_of(*keys),
            sv.len() == keys@.len(),
            forall|j: int| 0 <= j < i as int ==> #[trigger] sv[j] != n@,
        decreases keys@.len() - i,
    {
        proof {
            assert(sv[i as int] == keys@[i as int]@);
        }
        if str_eq(keys[i].as_str(), n) {
            proof {
                assert(sv[i as int] == n@);
            }
            return true;
        }
        i += 1;
    }
    proof {
        assert forall|j: int| 0 <= j < sv.len() implies sv[j] != n@ by {
            assert(sv[j] != n@);
        }
        if sv.contains(n@) {
            let w = choose|w: int| 0 <= w < sv.len() && sv[w] == n@;
            assert(sv[w] != n@);
        }
    }
    false
}

/// The number of votes a candidate name receives over all alternatives.
fn count_votes(afs: &Vec<Vec<(String, ApiType)>>, k: &str, Ghost(uni): Ghost<Seq<TyV>>) -> (r:
    usize)
    requires
        afs@.len() == uni.len(),
        forall|j: int|
            0 <= j < afs@.len() ==> fields_view_of(#[trigger] afs@[j]) == alt_fields(uni[j]),
    ensures
        r as nat == count_key(0, uni, k@),
{
    let mut c: usize = 0;
    let mut i: usize = 0;
    proof {
        assert(uni.take(0) =~= Seq::<TyV>::empty());
    }
    while i < afs.len()
        invariant
            i <= afs@.len(),
            afs@.len() == uni.len(),
            forall|j: int|
                0 <= j < afs@.len() ==> fields_view_of(#[trigger] afs@[j]) == alt_fields(uni[j]),
            c as nat == count_key(0, uni.take(i as int), k@),
        decreases afs@.len() - i,
    {
        let af = &afs[i];
        let ghost fv = fields_view_of(*af);
        let ghost base = count_key(0, uni.take(i as int), k@);
        let mut j: usize = 0;
        proof {
            assert(fv.take(0) =~= Seq::<(Seq<char>, TyV)>::empty());
        }
        while j < af.len()
            invariant
                j <= af@.len(),
                fv == fields_view_of(*af),
                fv.len() == af@.len(),
                c as nat == count_in_fields(base, fv.take(j as int), k@),
            decreases af@.len() - j,
        {
            let f = &af[j];
            let hit = if str_eq(f.0.as_str(), k) {
                match &f.1.kind {
                    ApiKind::StrEnum(se) => se.len() == 1,
                    _ => false,
                }
            } else {
                false
            };
            proof {
                assert(fv[j as int] == (af@[j as int].0@, ty_view(af@[j as int].1)));
                assert(fv.take(j as int + 1).drop_last() =~= fv.take(j as int));
                assert(fv.take(j as int + 1).last() == fv[j as int]);
            }
            if hit {
                if c < usize::MAX {
                    c += 1;
                }
            }
            j += 1;
        }
        proof {
            assert(fv.take(af@.len() as int) =~= fv);
            assert(uni.take(i as int + 1).drop_last() =~= uni.take(i as int));
            assert(uni.take(i as int + 1).last() == uni[i as int]);
        }
        i += 1;
    }
    proof {
        assert(uni.take(afs@.len() as int) =~= uni);
    }
    c
}

/// Renders a union declaration: picks the discriminant by majority vote
/// and emits one factory per alternative, with the `added` fields merged
/// into every alternative; falls back to an untagged alias when no
/// discriminant exists.
#[verifier::rlimit(100)]
#[verifier::spinoff_prover]
fn dart_union(name: &str, uni: &Vec<ApiType>, for_input: bool, added: &Vec<(String, ApiType)>)
    -> (r: String)
    requires
        crate::ir::tys_wf(tys_view_of(*uni)),
        forall|j: int|
            0 <= j < added@.len() ==> ty_view((#[trigger] added@[j]).1).wf(),
    ensures
        r@ == dart_union_text(name@, tys_view_of(*uni), fields_view_of(*added), for_input),
{
    let ghost views = tys_view_of(*uni);
    let ghost addedv = fields_view_of(*added);
    proof {
        lemma_tys_wf_iff(views);
        lemma_alts_objectish_iff(views);
    }

    // Object-shape gate.
    let mut i: usize = 0;
    while i < uni.len()
        invariant
            i <= uni@.len(),
            views == tys_view_of(*uni),
            views.len() == uni@.len(),
            forall|j: int| 0 <= j < i as int ==> alt_objectish(#[trigger] views[j]),
        decreases uni@.len() - i,
    {
        proof {
            assert(views[i as int] == ty_view(uni@[i as int]));
        }
        if !alt_objectish_exec(&uni[i]) {
            proof {
                lemma_alts_objectish_iff(views);
            }
            let mut out = "typedef ".to_owned();
            out.append(name);
            out.append(" = Object;\n");
            return out;
        }
        i += 1;
    }
    proof {
        lemma_alts_objectish_iff(views);
        assert(alts_objectish(views));
    }

    // Materialize each alternative's fields.
    let mut afs: Vec<Vec<(String, ApiType)>> = Vec::new();
    let mut i: usize = 0;
    while i < uni.len()
        invariant
            i <= uni@.len(),
            views == tys_view_of(*uni),
            views.len() == uni@.len(),
            crate::ir::tys_wf(views),
            afs@.len() == i as int,
            forall|j: int|
                0 <= j < i as int ==> fields_view_of(#[trigger] afs@[j]) == alt_fields(views[j]),
            forall|j: int, l: int|
                0 <= j < i as int && 0 <= l < afs@[j]@.len() ==> ty_view(
                    (#[trigger] afs@[j]@[l]).1,
                ).wf(),
        decreases uni@.len() - i,
    {
        proof {
            assert(views[i as int] == ty_view(uni@[i as int]));
            lemma_tys_wf_iff(views);
            assert(views[i as int].wf());
        }
        let af = alt_fields_exec(&uni[i]);
        afs.push(af);
        i += 1;
    }

    // Candidate discriminant names, in order of first appearance.
    let mut keys: Vec<String> = Vec::new();
    let mut i: usize = 0;
    proof {
        assert(crate::ir::strs_view_of(keys) =~= union_keys(Seq::empty(), views.take(0)));
    }
    while i < afs.len()
        invariant
            i <= afs@.len(),
            afs@.len() == views.len(),
            forall|j: int|
                0 <= j < afs@.len() ==> fields_view_of(#[trigger] afs@[j]) == alt_fields(
                    views[j],
                ),
            crate::ir::strs_view_of(keys) == union_keys(Seq::empty(), views.take(i as int)),
        decreases afs@.len() - i,
    {
        let af = &afs[i];
        let ghost fv = fields_view_of(*af);
        let ghost base = union_keys(Seq::empty(), views.take(i as int));
        let mut j: usize = 0;
        proof {
            assert(fv.take(0) =~= Seq::<(Seq<char>, TyV)>::empty());
        }
        while j < af.len()
            invariant
                j <= af@.len(),
                fv == fields_view_of(*af),
                fv.len() == af@.len(),
                crate::ir::strs_view_of(keys) == add_keys(base, fv.take(j as int)),
            decreases af@.len() - j,
        {
            let f = &af[j];
            let single = match &f.1.kind {
                ApiKind::StrEnum(se) => se.len() == 1,
                _ => false,
            };
            proof {
                assert(fv[j as int] == (af@[j as int].0@, ty_view(af@[j as int].1)));
                assert(fv.take(j as int + 1).drop_last() =~= fv.take(j as int));
                assert(fv.take(j as int + 1).last() == fv[j as int]);
            }
            if single && !contains_str(&keys, f.0.as_str()) {
                let ghost prev = crate::ir::strs_view_of(keys);
                keys.push(f.0.clone());
                proof {
                    assert(crate::ir::strs_view_of(keys) =~= prev.push(fv[j as int].0));
                }
            }
            j += 1;
        }
        proof {
            assert(fv.take(af@.len() as int) =~= fv);
            assert(views.take(i as int + 1).drop_last() =~= views.take(i as int));
            assert(views.take(i as int + 1).last() == views[i as int]);
        }
        i += 1;
    }
    proof {
        assert(views.take(afs@.len() as int) =~= views);
    }

    if keys.len() == 0 {
        let mut out = "typedef ".to_owned();
        out.append(name);
        out.append(" = Object;\n");
        return out;
    }

    // Majority vote, earliest of tied candidates first.
    let ghost keysv = crate::ir::strs_view_of(keys);
    let mut best = keys[0].clone();
    let mut bc = count_votes(&afs, keys[0].as_str(), Ghost(views));
    let mut i: usize = 1;
    proof {
        assert(keysv[0] == keys@[0]@);
    }
    while i < keys.len()
        invariant
            1 <= i <= keys@.len(),
            keysv == crate::ir::strs_view_of(keys),
            keysv.len() == keys@.len(),
            afs@.len() == views.len(),
            forall|j: int|
                0 <= j < afs@.len() ==> fields_view_of(#[trigger] afs@[j]) == alt_fields(
                    views[j],
                ),
            pick_key(views, keysv, 1, keysv[0], count_key(0, views, keysv[0])) == pick_key(
                views,
                keysv,
                i as int,
                best@,
                bc as nat,
            ),
        decreases keys@.len() - i,
    {
        proof {
            assert(keysv[i as int] == keys@[i as int]@);
        }
        let c = count_votes(&afs, keys[i].as_str(), Ghost(views));
        if c > bc {
            best = keys[i].clone();
            bc = c;
        }
        i += 1;
    }
    let uk = best;
    proof {
        assert(pick_key(views, keysv, keys@.len() as int, uk@, bc as nat) == uk@);
        assert(union_key(views) == Some(uk@));
    }

    // One factory line per alternative.
    let mut vars = String::new();
    let mut i: usize = 0;
    while i < uni.len()
        invariant
            i <= uni@.len(),
            views == tys_view_of(*uni),
            views.len() == uni@.len(),
            afs@.len() == views.len(),
            addedv == fields_view_of(*added),
            forall|j: int|
                0 <= j < added@.len() ==> ty_view((#[trigger] added@[j]).1).wf(),
            forall|j: int|
                0 <= j < afs@.len() ==> fields_view_of(#[trigger] afs@[j]) == alt_fields(
                    views[j],
                ),
            forall|j: int, l: int|
                0 <= j < afs@.len() && 0 <= l < afs@[j]@.len() ==> ty_view(
                    (#[trigger] afs@[j]@[l]).1,
                ).wf(),
            vars@ == union_vars(views.take(i as int), addedv, uk@, name@, for_input),
        decreases uni@.len() - i,
    {
        // The complete field list of this alternative: shared fields first.
        let mut full: Vec<(String, ApiType)> = Vec::new();
        let mut j: usize = 0;
        while j < added.len()
            invariant
                j <= added@.len(),
                addedv == fields_view_of(*added),
                addedv.len() == added@.len(),
                forall|l: int|
                    0 <= l < added@.len() ==> ty_view((#[trigger] added@[l]).1).wf(),
                full@.len() == j as int,
                fields_view_of(full) == addedv.take(j as int),
                forall|l: int|
                    0 <= l < full@.len() ==> ty_view((#[trigger] full@[l]).1).wf(),
            decreases added@.len() - j,
        {
            let pair = &added[j];
            let ghost before = fields_view_of(full);
            full.push((pair.0.clone(), pair.1.deep_copy()));
            j += 1;
            proof {
                assert(addedv[j as int - 1] == (
                    added@[j as int - 1].0@,
                    ty_view(added@[j as int - 1].1),
                ));
                assert(fields_view_of(full) =~= before.push(addedv[j as int - 1]));
                assert(addedv.take(j as int) =~= addedv.take(j as int - 1).push(
                    addedv[j as int - 1],
                ));
                assert(ty_view(full@[full@.len() - 1].1) == addedv[j as int - 1].1);
            }
        }
        proof {
            assert(addedv.take(added@.len() as int) =~= addedv);
        }
        let af = &afs[i];
        let ghost afv = fields_view_of(*af);
        let mut j: usize = 0;
        while j < af.len()
            invariant
                j <= af@.len(),
                afv == fields_view_of(*af),
                afv.len() == af@.len(),
                forall|l: int| 0 <= l < af@.len() ==> ty_view((#[trigger] af@[l]).1).wf(),
                fields_view_of(full) == addedv + afv.take(j as int),
                forall|l: int|
                    0 <= l < full@.len() ==> ty_view((#[trigger] full@[l]).1).wf(),
            decreases af@.len() - j,
        {
            let pair = &af[j];
            let ghost before = fields_view_of(full);
            full.push((pair.0.clone(), pair.1.deep_copy()));
            j += 1;
            proof {
                assert(afv[j as int - 1] == (af@[j as int - 1].0@, ty_view(af@[j as int - 1].1)));
                assert(fields_view_of(full) =~= before.push(afv[j as int - 1]));
                assert(addedv + afv.take(j as int) =~= (addedv + afv.take(j as int - 1)).push(
                    afv[j as int - 1],
                ));
                assert(ty_view(full@[full@.len() - 1].1) == afv[j as int - 1].1);
            }
        }
        proof {
            assert(afv.take(af@.len() as int) =~= afv);
            assert(fields_view_of(full) == addedv + alt_fields(views[i as int]));
        }

        // The variant identifier and field text.
        let ghost fullv = fields_view_of(full);
        let mut var_key = String::new();
        let mut inner = String::new();
        let mut j: usize = 0;
        proof {
            assert(fullv.take(0) =~= Seq::<(Seq<char>, TyV)>::empty());
        }
        while j < full.len()
            invariant
                j <= full@.len(),
                fullv == fields_view_of(full),
                fullv.len() == full@.len(),
                forall|l: int|
                    0 <= l < full@.len() ==> ty_view((#[trigger] full@[l]).1).wf(),
                (var_key@, inner@) == alt_parts(fullv.take(j as int), uk@, for_input),
            decreases full@.len() - j,
        {
            let f = &full[j];
            proof {
                assert(fullv[j as int] == (full@[j as int].0@, ty_view(full@[j as int].1)));
                assert(ty_view(full@[j as int].1).wf());
                assert(fullv.take(j as int + 1).drop_last() =~= fullv.take(j as int));
                assert(fullv.take(j as int + 1).last() == fullv[j as int]);
            }
            let mut tagged = false;
            if str_eq(f.0.as_str(), uk.as_str()) {
                match &f.1.kind {
                    ApiKind::StrEnum(se) => {
                        if se.len() > 0 {
                            var_key = snake_to_pascal(se[0].as_str());
                            tagged = true;
                            proof {
                                assert(fullv[j as int].1.kind->StrEnum_0[0] == se@[0]@);
                            }
                        }
                    },
                    _ => (),
                }
            }
            if !tagged {
                inner.append("required ");
                let piece = f.1.ref_or_body_dart(for_input);
                inner.append(piece.as_str());
                inner.append(" ");
                inner.append(f.0.as_str());
                inner.append(",\n");
            }
            j += 1;
        }
        proof {
            assert(fullv.take(full@.len() as int) =~= fullv);
        }

        if inner.as_str().is_empty() {
            vars.append("const factory ");
            vars.append(name);
            vars.append(".");
            vars.append(var_key.as_str());
            vars.append("() = ");
            vars.append(name);
            vars.append(var_key.as_str());
            vars.append(";\n");
        } else {
            vars.append("const factory ");
            vars.append(name);
            vars.append(".");
            vars.append(var_key.as_str());
            vars.append("({");
            vars.append(inner.as_str());
            vars.append("}) = ");
            vars.append(name);
            vars.append(var_key.as_str());
            vars.append(";\n");
        }
        i += 1;
        proof {
            assert(views.take(i as int).drop_last() =~= views.take(i as int - 1));
            assert(views.take(i as int).last() == views[i as int - 1]);
        }
    }
    proof {
        assert(views.take(uni@.len() as int) =~= views);
    }

    let mut out = "@Freezed(unionKey: '".to_owned();
    out.append(uk.as_str());
    out.append("', unionValueCase: FreezedUnionCase.snake)\nclass ");
    out.append(name);
    out.append(" with _$");
    out.append(name);
    out.append(" {\n    ");
    out.append(vars.as_str());
    out.append("\n\n    factory ");
    out.append(name);
    out.append(".fromJson(JsonObject json) => _$");
    out.append(name);
    out.append("FromJson(json);\n}\n");
    out
}

/// Renders an object declaration: a record typedef, or a class with JSON
/// conversion when a field name starts with an underscore.
#[verifier::rlimit(60)]
fn dart_object(name: &str, object: &Vec<(String, ApiType)>, for_input: bool) -> (r: String)
    requires
        forall|j: int|
            0 <= j < object@.len() ==> ty_view((#[trigger] object@[j]).1).wf(),
    ensures
        r@ == dart_object_text(name@, fields_view_of(*object), for_input),
{
    let ghost fv = fields_view_of(*object);

    // Does some field name start with an underscore?
    let mut gg = false;
    let mut i: usize = 0;
    proof {
        assert(fv.take(0) =~= Seq::<(Seq<char>, TyV)>::empty());
    }
    while i < object.len()
        invariant
            i <= object@.len(),
            fv == fields_view_of(*object),
            fv.len() == object@.len(),
            gg == has_private(fv.take(i as int)),
        decreases object@.len() - i,
    {
        let f = &object[i];
        proof {
            assert(fv[i as int] == (object@[i as int].0@, ty_view(object@[i as int].1)));
            assert(fv.take(i as int + 1).drop_last() =~= fv.take(i as int));
            assert(fv.take(i as int + 1).last() == fv[i as int]);
        }
        if !f.0.as_str().is_empty() && f.0.as_str().get_char(0) == '_' {
            gg = true;
        }
        i += 1;
    }
    proof {
        assert(fv.take(object@.len() as int) =~= fv);
    }

    if !gg {
        let mut inner = String::new();
        let mut i: usize = 0;
        proof {
            assert(fv.take(0) =~= Seq::<(Seq<char>, TyV)>::empty());
        }
        while i < object.len()
            invariant
                i <= object@.len(),
                fv == fields_view_of(*object),
                fv.len() == object@.len(),
                forall|j: int|
                    0 <= j < object@.len() ==> ty_view((#[trigger] object@[j]).1).wf(),
                inner@ == dart_typedef_fields(fv.take(i as int), for_input),
            decreases object@.len() - i,
        {
            let f = &object[i];
            proof {
                assert(fv[i as int] == (object@[i as int].0@, ty_view(object@[i as int].1)));
                assert(ty_view(object@[i as int].1).wf());
                assert(fv.take(i as int + 1).drop_last() =~= fv.take(i as int));
                assert(fv.take(i as int + 1).last() == fv[i as int]);
            }
            let piece = f.1.ref_or_body_dart(for_input);
            inner.append(piece.as_str());
            inner.append(" ");
            inner.append(f.0.as_str());
            inner.append(",\n");
            i += 1;
        }
        proof {
            assert(fv.take(object@.len() as int) =~= fv);
        }
        let mut out = "typedef ".to_owned();
        out.append(name);
        out.append(" = ({");
        out.append(inner.as_str());
        out.append("});");
        return out;
    }

    let mut props = String::new();
    let mut init = String::new();
    let mut from_json = String::new();
    let mut into_json = String::new();
    let mut i: usize = 0;
    proof {
        assert(fv.take(0) =~= Seq::<(Seq<char>, TyV)>::empty());
    }
    while i < object.len()
        invariant
            i <= object@.len(),
            fv == fields_view_of(*object),
            fv.len() == object@.len(),
            forall|j: int|
                0 <= j < object@.len() ==> ty_view((#[trigger] object@[j]).1).wf(),
            (props@, init@, from_json@, into_json@) == dart_class_parts(
                fv.take(i as int),
                for_input,
            ),
        decreases object@.len() - i,
    {
        let f = &object[i];
        proof {
            assert(fv[i as int] == (object@[i as int].0@, ty_view(object@[i as int].1)));
            assert(ty_view(object@[i as int].1).wf());
            assert(fv.take(i as int + 1).drop_last() =~= fv.take(i as int));
            assert(fv.take(i as int + 1).last() == fv[i as int]);
        }
        let pn = if !f.0.as_str().is_empty() && f.0.as_str().get_char(0) == '_' {
            let l = f.0.as_str().unicode_len();
            f.0.as_str().substring_char(1, l).to_owned()
        } else {
            f.0.clone()
        };
        proof {
            assert(pn@ == strip_underscore(fv[i as int].0));
        }
        props.append("final ");
        let piece = f.1.ref_or_body_dart(for_input);
        props.append(piece.as_str());
        props.append(" ");
        props.append(pn.as_str());
        props.append(";\n");
        init.append("required this.");
        init.append(pn.as_str());
        init.append(",");
        from_json.append(pn.as_str());
        from_json.append(": json['");
        from_json.append(f.0.as_str());
        from_json.append("'],\n");
        into_json.append("'");
        into_json.append(f.0.as_str());
        into_json.append("': ");
        into_json.append(pn.as_str());
        into_json.append(",");
        i += 1;
    }
    proof {
        assert(fv.take(object@.len() as int) =~= fv);
    }
    let mut out = "class ".to_owned();
    out.append(name);
    out.append(" {\n    ");
    out.append(props.as_str());
    out.append("\n\n    ");
    out.append(name);
    out.append("({ ");
    out.append(init.as_str());
    out.append(" });\n\n    factory ");
    out.append(name);
    out.append(".fromJson(JsonObject json) {\n        return ");
    out.append(name);
    out.append("(");
    out.append(from_json.as_str());
    out.append(");\n    }\n\n    JsonObject toJson() => {\n        ");
    out.append(into_json.as_str());
    out.append("\n    };\n}\n");
    out
}

/// Renders a closed string-enumeration class.
fn dart_enum(name: &str, ls: &Vec<String>) -> (r: String)
    ensures
        r@ == dart_enum_class(name@, crate::ir::strs_view_of(*ls)),
{
    let ghost lv = crate::ir::strs_view_of(*ls);
    let mut eel = String::new();
    let mut een = String::new();
    let mut i: usize = 0;
    proof {
        assert(lv.take(0) =~= Seq::<Seq<char>>::empty());
    }
    while i < ls.len()
        invariant
            i <= ls@.len(),
            lv == crate::ir::strs_view_of(*ls),
            lv.len() == ls@.len(),
            eel@ == dart_enum_consts(name@, lv.take(i as int)),
            een@ == dart_enum_names(lv.take(i as int)),
        decreases ls@.len() - i,
    {
        proof {
            assert(lv[i as int] == ls@[i as int]@);
            assert(lv.take(i as int + 1).drop_last() =~= lv.take(i as int));
            assert(lv.take(i as int + 1).last() == lv[i as int]);
        }
        let eup = crate::text::ascii_upper(ls[i].as_str());
        eel.append("    static const ");
        eel.append(eup.as_str());
        eel.append(" = ");
        eel.append(name);
        eel.append("._('");
        eel.append(ls[i].as_str());
        eel.append("');\n");
        if i > 0 {
            een.append(",");
        }
        een.append(eup.as_str());
        i += 1;
    }
    proof {
        assert(lv.take(ls@.len() as int) =~= lv);
    }
    let mut out = "class ".to_owned();
    out.append(name);
    out.append(" {\n    final String value;\n    const ");
    out.append(name);
    out.append("._(this.value);\n    \n");
    out.append(eel.as_str());
    out.append("\n    \n    static const values = [");
    out.append(een.as_str());
    out.append("];\n\n    factory ");
    out.append(name);
    out.append(
        ".fromJson(String json) {\n        return values.firstWhere((v) => v.value == json);\n    }\n\n    String toJson() => value;\n}\n",
    );
    out
}

impl ApiType {
    /// The Dart text of this node where it is used: its name if it has
    /// one, otherwise an inline structural rendering.
    pub fn ref_or_body_dart(&self, for_input: bool) -> (r: String)
        requires
            self@.wf(),
        ensures
            r@ == dart_ref_or_body(self@, for_input),
        decreases *self, 2int,
    {
        if let Some(n) = &self.name {
            return n.clone();
        }
        match &self.kind {
            ApiKind::Prim(p) => p.dart(for_input),
            ApiKind::Object(o) => {
                let ghost fields = fields_view_of(*o);
                proof {
                    assert(self@.kind == KindV::Object(fields));
                    assert(crate::ir::fields_wf(fields));
                    lemma_fields_wf_iff(fields);
                }
                let mut out = "({ ".to_owned();
                let mut i: usize = 0;
                while i < o.len()
                    invariant
                        i <= o@.len(),
                        fields == fields_view_of(*o),
                        fields.len() == o@.len(),
                        decreases_to!(*self => *o),
                        forall|j: int| 0 <= j < fields.len() ==> (#[trigger] fields[j].1).wf(),
                        out@ == "({ "@ + dart_rec_fields(fields.take(i as int), for_input),
                    decreases o@.len() - i,
                {
                    let pair = &o[i];
                    proof {
                        assert(decreases_to!(*o => o@[i as int]));
                        assert(decreases_to!(o@[i as int] => o@[i as int].1));
                        assert(fields[i as int] == (o@[i as int].0@, ty_view(o@[i as int].1)));
                        assert(fields[i as int].1.wf());
                    }
                    let piece = pair.1.ref_or_body_dart(for_input);
                    out.append(piece.as_str());
                    out.append(" ");
                    out.append(pair.0.as_str());
                    out.append(",");
                    i += 1;
                    proof {
                        assert(fields.take(i as int).drop_last() =~= fields.take(i as int - 1));
                        assert(fields.take(i as int).last() == fields[i as int - 1]);
                    }
                }
                proof {
                    assert(fields.take(o@.len() as int) =~= fields);
                }
                out.append(" })");
                out
            },
            ApiKind::Array(at) => {
                let mut out = "List<".to_owned();
                let piece = (**at).ref_or_body_dart(for_input);
                out.append(piece.as_str());
                out.append(">");
                out
            },
            ApiKind::Ref(r) => r.clone(),
            ApiKind::StrEnum(_) => "String".to_owned(),
            ApiKind::Unknown => "dynamic".to_owned(),
            ApiKind::Recursive => "dynamic".to_owned(),
            ApiKind::Union(_) => "dynamic".to_owned(),
            ApiKind::Combo(_) => "dynamic".to_owned(),
            ApiKind::Tuple(_) => "dynamic".to_owned(),
        }
    }

    /// The Dart text of this node's standalone declaration under its name.
    #[verifier::rlimit(30)]
    pub fn def_dart(&self, for_input: bool) -> (r: String)
        requires
            self@.wf(),
            self@.name is Some,
        ensures
            r@ == dart_def(self@, for_input),
    {
        let name = self.name.as_ref().unwrap();
        proof {
            assert(self@.name->0 == name@);
        }
        match &self.kind {
            ApiKind::Unknown => String::new(),
            ApiKind::Recursive => {
                let mut out = "typedef ".to_owned();
                out.append(name.as_str());
                out.append(" = ");
                out.append(name.as_str());
                out.append(";\n");
                out
            },
            ApiKind::Ref(rn) => {
                let mut out = "typedef ".to_owned();
                out.append(name.as_str());
                out.append(" = ");
                out.append(rn.as_str());
                out.append(";\n");
                out
            },
            ApiKind::Prim(p) => {
                proof {
                    assert(self@.kind == KindV::Prim(crate::ir::prim_view(*p)));
                    assert(crate::ir::prim_view(*p).wf());
                }
                let mut out = "typedef ".to_owned();
                out.append(name.as_str());
                out.append(" = ");
                let piece = p.dart(for_input);
                out.append(piece.as_str());
                out.append(";\n");
                out
            },
            ApiKind::StrEnum(ls) => {
                proof {
                    assert(self@.kind == KindV::StrEnum(crate::ir::strs_view_of(*ls)));
                }
                dart_enum(name.as_str(), ls)
            },
            ApiKind::Array(a) => {
                proof {
                    assert(self@.kind == KindV::Array(Box::new(ty_view(**a))));
                    assert(ty_view(**a).wf());
                }
                let mut out = "typedef ".to_owned();
                out.append(name.as_str());
                out.append(" = List<");
                let piece = (**a).ref_or_body_dart(for_input);
                out.append(piece.as_str());
                out.append(">;");
                out
            },
            ApiKind::Object(o) => {
                proof {
                    assert(self@.kind == KindV::Object(fields_view_of(*o)));
                    assert(crate::ir::fields_wf(fields_view_of(*o)));
                    lemma_fields_wf_iff(fields_view_of(*o));
                    assert forall|j: int|
                        0 <= j < o@.len() implies ty_view((#[trigger] o@[j]).1).wf() by {
                        assert(fields_view_of(*o)[j] == (o@[j].0@, ty_view(o@[j].1)));
                        assert(fields_view_of(*o)[j].1.wf());
                    }
                }
                dart_object(name.as_str(), o, for_input)
            },
            ApiKind::Union(u) => {
                proof {
                    assert(self@.kind == KindV::Union(tys_view_of(*u)));
                    assert(crate::ir::tys_wf(tys_view_of(*u)));
                }
                let empty: Vec<(String, ApiType)> = Vec::new();
                let out = dart_union(name.as_str(), u, for_input, &empty);
                proof {
                    assert(fields_view_of(empty) =~= Seq::<(Seq<char>, TyV)>::empty());
                }
                out
            },
            ApiKind::Combo(ms) => {
                let ghost msv = tys_view_of(*ms);
                proof {
                    assert(self@.kind == KindV::Combo(msv));
                    assert(crate::ir::tys_wf(msv));
                    lemma_tys_wf_iff(msv);
                }
                let added = alt_fields_exec(self);
                proof {
                    assert(alt_fields(self@) == combo_fields(msv));
                }
                let mut uni_idx: Option<usize> = None;
                let mut i: usize = 0;
                proof {
                    assert(msv.take(0) =~= Seq::<TyV>::empty());
                }
                while i < ms.len()
                    invariant
                        i <= ms@.len(),
                        msv == tys_view_of(*ms),
                        msv.len() == ms@.len(),
                        match uni_idx {
                            None => combo_union(msv.take(i as int)) is None,
                            Some(j) => j < i && msv[j as int].kind is Union && combo_union(
                                msv.take(i as int),
                            ) == Some(msv[j as int].kind->Union_0),
                        },
                    decreases ms@.len() - i,
                {
                    proof {
                        assert(msv[i as int] == ty_view(ms@[i as int]));
                        crate::ir::lemma_kind_view_variant(ms@[i as int].kind);
                        assert(msv.take(i as int + 1).drop_last() =~= msv.take(i as int));
                        assert(msv.take(i as int + 1).last() == msv[i as int]);
                    }
                    if matches!(&ms[i].kind, ApiKind::Union(_)) {
                        uni_idx = Some(i);
                    }
                    i += 1;
                }
                proof {
                    assert(msv.take(ms@.len() as int) =~= msv);
                }
                match uni_idx {
                    Some(j) => {
                        proof {
                            assert(msv[j as int] == ty_view(ms@[j as int]));
                            crate::ir::lemma_kind_view_variant(ms@[j as int].kind);
                            assert(msv[j as int].wf());
                        }
                        if let ApiKind::Union(u) = &ms[j].kind {
                            proof {
                                assert(msv[j as int].kind == KindV::Union(tys_view_of(*u)));
                                assert(crate::ir::tys_wf(tys_view_of(*u)));
                            }
                            dart_union(name.as_str(), u, for_input, &added)
                        } else {
                            proof {
                                assert(false);
                            }
                            String::new()
                        }
                    },
                    None => dart_object(name.as_str(), &added, for_input),
                }
            },
            ApiKind::Tuple(_) => {
                let mut out = "// Tuple: ".to_owned();
                out.append(name.as_str());
                out
            },
        }
    }
}

// ------------------------------------------------------------------
// Request wrappers
// ------------------------------------------------------------------

/// The response type and transfer annotation of a route, chosen by the
/// declared response content type; no response body means `void`.
pub open spec fn dart_route_out(rb: Option<crate::routes::RespBodyV>) -> Result<
    (Seq<char>, Seq<char>),
    crate::ErrV,
> {
    match rb {
        None => Ok(("void"@, ""@)),
        Some(ab) => {
            if ab.content_type == "text/plain"@ {
                Ok(("string"@, "type: 'text',"@))
            } else if ab.content_type == "application/octet-stream"@ {
                Ok(("ArrayBuffer"@, "type: 'arraybuffer',"@))
            } else if ab.content_type == "application/json"@ {
                match ab.api_type {
                    Some(t) => Ok((dart_ref_or_body(t, false), "type: 'json',"@)),
                    None => Err(crate::ErrV::UnsupportedSchema("json response body"@)),
                }
            } else {
                Err(crate::ErrV::UnsupportedSchema(ab.content_type))
            }
        },
    }
}

/// The positional parameter declarations of a route, `type name` each.
pub open spec fn dart_param_inputs(params: Seq<crate::routes::ParamV>) -> Seq<Seq<char>>
    decreases params,
{
    if params.len() == 0 {
        Seq::empty()
    } else {
        dart_param_inputs(params.drop_last()).push(
            dart_ref_or_body(params.last().api_type, true) + " "@ + params.last().name,
        )
    }
}

/// Pieces joined by a separator.
pub open spec fn join_sep(names: Seq<Seq<char>>, sep: Seq<char>) -> Seq<char>
    decreases names,
{
    if names.len() == 0 {
        Seq::empty()
    } else if names.len() == 1 {
        names[0]
    } else {
        join_sep(names.drop_last(), sep) + sep + names.last()
    }
}

/// The body-input declaration, content-type header, and data statement of
/// a request body, sharing the multipart attachment rules with the
/// TypeScript emitter.
pub open spec fn dart_route_req(rb: Option<crate::routes::ReqBodyV>) -> Result<
    (Seq<Seq<char>>, Seq<char>, Seq<char>),
    crate::ErrV,
> {
    match rb {
        None => Ok((Seq::empty(), Seq::empty(), Seq::empty())),
        Some(b) => {
            let input_entry = seq![dart_ref_or_body(b.api_type, true) + " body"@];
            let headers = if b.content_type != "multipart/form-data"@ {
                "'Content-Type': '"@ + b.content_type + "',"@
            } else {
                Seq::empty()
            };
            if b.content_type == "text/plain"@ {
                Ok((input_entry, headers, "let data = body;"@))
            } else if b.content_type == "application/json"@ {
                Ok((input_entry, headers, "let data = JSON.stringify(body);"@))
            } else if b.content_type == "multipart/form-data"@ {
                match b.api_type.kind {
                    KindV::Object(fields) => Ok(
                        (
                            input_entry,
                            headers,
                            "let data = new FormData();\n"@ + crate::emit_ts::multipart_fields(
                                fields,
                            ),
                        ),
                    ),
                    _ => Err(crate::ErrV::MultipartBodyMustBeObject),
                }
            } else {
                Err(crate::ErrV::UnsupportedSchema(b.content_type))
            }
        },
    }
}

/// The complete Dart request-wrapper text of a route.
#[verifier::opaque]
pub open spec fn spec_def_dart(rv: crate::routes::RouteV) -> Result<Seq<char>, crate::ErrV> {
    match dart_route_out(rv.response_body) {
        Err(e) => Err(e),
        Ok((outy, http_out_type)) => match dart_route_req(rv.request_body) {
            Err(e) => Err(e),
            Ok((body_entry, headers, body)) => {
                let input = join_sep(dart_param_inputs(rv.params) + body_entry, ", "@);
                let qp = crate::emit_ts::join_comma(crate::emit_ts::query_names(rv.params));
                Ok(
                    "/**\n"@ + rv.doc + "\nPromise<ud.Result<"@ + outy + ">>\n*/\nFuture<"@
                        + outy + "> "@ + rv.name + " ("@ + input
                        + ") async {\nreturn 0;\n/*\n    // {params_bloom}\n    "@ + body
                        + "\n    return new Promise((resolve, reject) => {\n        ud.httpx({\n            url: `"@
                        + crate::text::spec_template_url(rv.url) + "`,\n            method: '"@
                        + spec_upper(rv.method) + "',\n            params: { "@ + qp
                        + " },\n            "@ + http_out_type + "\n            headers: { "@
                        + headers
                        + " },\n            data,\n            reject,\n            onLoad(x) {\n                resolve({\n                    x,\n                    status: x.status,\n                    body: x.response,\n                    ok(): this is ud.Ok<"@
                        + outy
                        + "> {\n                        return this.status == 200\n                    },\n                    err(): this is ud.Err {\n                        return !this.ok()\n                    },\n                })\n            },\n            ...override\n        })\n    })\n    */\n\n}\n"@,
                )
            },
        },
    }
}

impl crate::routes::ApiRoute {
    /// The Dart request-wrapper function of this route, exactly as
    /// `spec_def_dart` describes. Fails when the response or request
    /// content type is unrecognized, a JSON response carries no resolved
    /// type, or a multipart body is not an object.
    #[verifier::rlimit(80)]
    pub fn def_dart(&self) -> (r: Result<String, crate::GenError>)
        requires
            crate::emit_ts::route_wf(self@),
        ensures
            match r {
                Ok(s) => spec_def_dart(self@) == Ok::<Seq<char>, crate::ErrV>(s@),
                Err(e) => spec_def_dart(self@) == Err::<Seq<char>, crate::ErrV>(
                    crate::err_view(e),
                ),
            },
    {
        proof {
            reveal(spec_def_dart);
        }
        // Response type and transfer annotation.
        let mut outy: String;
        let http_out_type: &str;
        match &self.response_body {
            None => {
                outy = "void".to_owned();
                http_out_type = "";
            },
            Some(ab) => {
                if str_eq(ab.content_type.as_str(), "text/plain") {
                    outy = "string".to_owned();
                    http_out_type = "type: 'text',";
                } else if str_eq(ab.content_type.as_str(), "application/octet-stream") {
                    outy = "ArrayBuffer".to_owned();
                    http_out_type = "type: 'arraybuffer',";
                } else if str_eq(ab.content_type.as_str(), "application/json") {
                    match &ab.api_type {
                        Some(t) => {
                            outy = t.ref_or_body_dart(false);
                            http_out_type = "type: 'json',";
                        },
                        None => {
                            return Err(
                                crate::GenError::UnsupportedSchema(
                                    "json response body".to_owned(),
                                ),
                            );
                        },
                    }
                } else {
                    return Err(crate::GenError::UnsupportedSchema(ab.content_type.clone()));
                }
            },
        }

        // Positional inputs and query parameter names.
        let ghost pv = crate::routes::params_view_of(self.params);
        let mut inputs: Vec<String> = Vec::new();
        let mut qp: Vec<String> = Vec::new();
        let mut i: usize = 0;
        proof {
            assert(pv.take(0) =~= Seq::<crate::routes::ParamV>::empty());
            assert(crate::ir::strs_view_of(inputs) =~= dart_param_inputs(pv.take(0)));
            assert(crate::ir::strs_view_of(qp) =~= crate::emit_ts::query_names(pv.take(0)));
        }
        while i < self.params.len()
            invariant
                i <= self.params@.len(),
                pv == crate::routes::params_view_of(self.params),
                pv.len() == self.params@.len(),
                forall|j: int| 0 <= j < pv.len() ==> (#[trigger] pv[j].api_type).wf(),
                crate::ir::strs_view_of(inputs) == dart_param_inputs(pv.take(i as int)),
                crate::ir::strs_view_of(qp) == crate::emit_ts::query_names(pv.take(i as int)),
            decreases self.params@.len() - i,
        {
            let p = &self.params[i];
            proof {
                assert(pv[i as int] == crate::routes::param_view(self.params@[i as int]));
                assert(pv[i as int].api_type.wf());
                assert(pv.take(i as int + 1).drop_last() =~= pv.take(i as int));
                assert(pv.take(i as int + 1).last() == pv[i as int]);
            }
            if p.param_in.is_query() {
                let ghost qp_prev = crate::ir::strs_view_of(qp);
                qp.push(p.name.clone());
                proof {
                    assert(crate::ir::strs_view_of(qp) =~= qp_prev.push(pv[i as int].name));
                    assert(crate::emit_ts::query_names(pv.take(i as int)) + seq![
                        pv[i as int].name,
                    ] =~= crate::emit_ts::query_names(pv.take(i as int)).push(pv[i as int].name));
                }
            } else {
                proof {
                    assert(crate::emit_ts::query_names(pv.take(i as int)) + Seq::<
                        Seq<char>,
                    >::empty() =~= crate::emit_ts::query_names(pv.take(i as int)));
                }
            }
            let mut entry = p.api_type.ref_or_body_dart(true);
            entry.append(" ");
            entry.append(p.name.as_str());
            let ghost inputs_prev = crate::ir::strs_view_of(inputs);
            inputs.push(entry);
            proof {
                assert(crate::ir::strs_view_of(inputs) =~= inputs_prev.push(
                    dart_ref_or_body(pv[i as int].api_type, true) + " "@ + pv[i as int].name,
                ));
            }
            i += 1;
        }
        proof {
            assert(pv.take(self.params@.len() as int) =~= pv);
        }

        // Request body: input entry, header, data statement.
        let mut headers = String::new();
        let mut body = String::new();
        match &self.request_body {
            None => {
                proof {
                    assert(crate::ir::strs_view_of(inputs) + Seq::<Seq<char>>::empty()
                        =~= crate::ir::strs_view_of(inputs));
                }
            },
            Some(rb) => {
                let mut entry = rb.api_type.ref_or_body_dart(true);
                entry.append(" body");
                if !str_eq(rb.content_type.as_str(), "multipart/form-data") {
                    headers.append("'Content-Type': '");
                    headers.append(rb.content_type.as_str());
                    headers.append("',");
                }
                if str_eq(rb.content_type.as_str(), "text/plain") {
                    body.append("let data = body;");
                } else if str_eq(rb.content_type.as_str(), "application/json") {
                    body.append("let data = JSON.stringify(body);");
                } else if str_eq(rb.content_type.as_str(), "multipart/form-data") {
                    match &rb.api_type.kind {
                        ApiKind::Object(obj) => {
                            let ghost fields = fields_view_of(*obj);
                            proof {
                                assert(ty_view(rb.api_type).kind == KindV::Object(fields));
                                assert(crate::ir::fields_wf(fields));
                            }
                            body.append("let data = new FormData();\n");
                            let mut j: usize = 0;
                            proof {
                                assert(fields.take(0) =~= Seq::<(Seq<char>, TyV)>::empty());
                            }
                            while j < obj.len()
                                invariant
                                    j <= obj@.len(),
                                    fields == fields_view_of(*obj),
                                    fields.len() == obj@.len(),
                                    body@ == "let data = new FormData();\n"@
                                        + crate::emit_ts::multipart_fields(
                                        fields.take(j as int),
                                    ),
                                decreases obj@.len() - j,
                            {
                                let f = &obj[j];
                                proof {
                                    assert(fields[j as int] == (
                                        obj@[j as int].0@,
                                        ty_view(obj@[j as int].1),
                                    ));
                                    crate::ir::lemma_kind_view_variant(obj@[j as int].1.kind);
                                    assert(fields.take(j as int + 1).drop_last() =~= fields.take(
                                        j as int,
                                    ));
                                    assert(fields.take(j as int + 1).last() == fields[j as int]);
                                }
                                let class = crate::emit_ts::multipart_class(&f.1);
                                proof {
                                    assert(fields[j as int].1.kind == ty_view(f.1).kind);
                                }
                                if class == 1 {
                                    body.append("data.set('");
                                    body.append(f.0.as_str());
                                    body.append("', body.");
                                    body.append(f.0.as_str());
                                    body.append(");\n");
                                } else if class == 2 {
                                    body.append("body.");
                                    body.append(f.0.as_str());
                                    body.append(" && ");
                                    body.append("data.set('");
                                    body.append(f.0.as_str());
                                    body.append("', body.");
                                    body.append(f.0.as_str());
                                    body.append(");\n");
                                } else {
                                    body.append("data.set(\n    '");
                                    body.append(f.0.as_str());
                                    body.append(
                                        "',\n    new Blob(\n        [JSON.stringify(body.",
                                    );
                                    body.append(f.0.as_str());
                                    body.append(
                                        ")],\n        { type: 'application/json' }\n    )\n);\n\n",
                                    );
                                }
                                j += 1;
                                proof {
                                    assert(body@ =~= "let data = new FormData();\n"@
                                        + crate::emit_ts::multipart_fields(
                                        fields.take(j as int),
                                    ));
                                }
                            }
                            proof {
                                assert(fields.take(obj@.len() as int) =~= fields);
                            }
                        },
                        _ => {
                            proof {
                                crate::ir::lemma_kind_view_variant(rb.api_type.kind);
                            }
                            return Err(crate::GenError::MultipartBodyMustBeObject);
                        },
                    }
                } else {
                    return Err(crate::GenError::UnsupportedSchema(rb.content_type.clone()));
                }
                let ghost inputs_prev = crate::ir::strs_view_of(inputs);
                inputs.push(entry);
                proof {
                    assert(crate::ir::strs_view_of(inputs) =~= inputs_prev + seq![
                        dart_ref_or_body(ty_view(rb.api_type), true) + " body"@,
                    ]);
                }
            },
        }

        // Assemble the wrapper.
        let input = join_sep_exec(&inputs, ", ");
        let qps = crate::emit_ts::join_comma_exec(&qp);
        let dart_url = crate::text::template_url(self.url.as_str());
        let mu = crate::text::ascii_upper(self.method.as_str());

        let mut out = "/**\n".to_owned();
        out.append(self.doc.as_str());
        out.append("\nPromise<ud.Result<");
        out.append(outy.as_str());
        out.append(">>\n*/\nFuture<");
        out.append(outy.as_str());
        out.append("> ");
        out.append(self.name.as_str());
        out.append(" (");
        out.append(input.as_str());
        out.append(") async {\nreturn 0;\n/*\n    // {params_bloom}\n    ");
        out.append(body.as_str());
        out.append(
            "\n    return new Promise((resolve, reject) => {\n        ud.httpx({\n            url: `",
        );
        out.append(dart_url.as_str());
        out.append("`,\n            method: '");
        out.append(mu.as_str());
        out.append("',\n            params: { ");
        out.append(qps.as_str());
        out.append(" },\n            ");
        out.append(http_out_type);
        out.append("\n            headers: { ");
        out.append(headers.as_str());
        out.append(
            " },\n            data,\n            reject,\n            onLoad(x) {\n                resolve({\n                    x,\n                    status: x.status,\n                    body: x.response,\n                    ok(): this is ud.Ok<",
        );
        out.append(outy.as_str());
        out.append(
            "> {\n                        return this.status == 200\n                    },\n                    err(): this is ud.Err {\n                        return !this.ok()\n                    },\n                })\n            },\n            ...override\n        })\n    })\n    */\n\n}\n",
        );
        Ok(out)
    }
}

/// Pieces joined by a separator.
fn join_sep_exec(names: &Vec<String>, sep: &str) -> (r: String)
    ensures
        r@ == join_sep(crate::ir::strs_view_of(*names), sep@),
{
    let ghost nv = crate::ir::strs_view_of(*names);
    let mut out = String::new();
    let mut i: usize = 0;
    proof {
        assert(nv.take(0) =~= Seq::<Seq<char>>::empty());
    }
    while i < names.len()
        invariant
            i <= names@.len(),
            nv == crate::ir::strs_view_of(*names),
            nv.len() == names@.len(),
            out@ == join_sep(nv.take(i as int), sep@),
        decreases names@.len() - i,
    {
        proof {
            assert(nv[i as int] == names@[i as int]@);
            assert(nv.take(i as int + 1).drop_last() =~= nv.take(i as int));
            assert(nv.take(i as int + 1).last() == nv[i as int]);
        }
        if i > 0 {
            out.append(sep);
        }
        out.append(names[i].as_str());
        i += 1;
    }
    proof {
        assert(nv.take(names@.len() as int) =~= nv);
    }
    out
}

} // verus!
