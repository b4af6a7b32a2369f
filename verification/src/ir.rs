//! The normalized intermediate representation (IR) of API types.
//!
//! A schema document is resolved into `ApiType` values; emitters render those
//! into target-language source text. The ghost mirror types (`TyV`, `KindV`,
//! `PrimV`) give every IR value a mathematical view over `Seq<char>` names,
//! which the contracts of the resolver and the emitters are stated over.

use vstd::prelude::*;

verus! {

broadcast use vstd::seq::group_seq_axioms, vstd::std_specs::vec::group_vec_axioms;

/// Atomic types, plus the canonical nullability wrapper.
#[derive(Debug)]
pub enum ApiPrim {
    Str,
    Int,
    Float,
    Bool,
    File,
    Null,
    Option(Box<ApiType>),
}

pub type ApiObject = Vec<(String, ApiType)>;

pub type ApiUnion = Vec<ApiType>;

/// The closed variant set of IR nodes.
#[derive(Debug)]
pub enum ApiKind {
    /// Resolution-in-progress sentinel; never present in a resolved value.
    Unknown,
    /// Placeholder for a named schema that revisits an ancestor of itself;
    /// the name sits on the owning `ApiType`.
    Recursive,
    /// Named pointer to a type resolved elsewhere.
    Ref(String),
    Prim(ApiPrim),
    Array(Box<ApiType>),
    /// Ordered field list; order is declaration order and is significant.
    Object(ApiObject),
    /// "Exactly one of" alternatives.
    Union(ApiUnion),
    /// "All of" alternatives requiring structural merge.
    Combo(Vec<ApiType>),
    /// Closed set of string literals.
    StrEnum(Vec<String>),
    /// Fixed-arity heterogeneous sequence.
    Tuple(Vec<ApiType>),
}

/// One IR node: an optional declaration name and a kind.
#[derive(Debug)]
pub struct ApiType {
    pub name: Option<String>,
    pub kind: ApiKind,
}

/// Ghost mirror of `ApiPrim`.
#[verifier::ext_equal]
pub ghost enum PrimV {
    Str,
    Int,
    Float,
    Bool,
    File,
    Null,
    Option(Box<TyV>),
}

/// Ghost mirror of `ApiKind`.
#[verifier::ext_equal]
pub ghost enum KindV {
    Unknown,
    Recursive,
    Ref(Seq<char>),
    Prim(PrimV),
    Array(Box<TyV>),
    Object(Seq<(Seq<char>, TyV)>),
    Union(Seq<TyV>),
    Combo(Seq<TyV>),
    StrEnum(Seq<Seq<char>>),
    Tuple(Seq<TyV>),
}

/// Ghost mirror of `ApiType`.
#[verifier::ext_equal]
pub ghost struct TyV {
    pub name: Option<Seq<char>>,
    pub kind: KindV,
}

pub open spec fn opt_str_view(name: Option<String>) -> Option<Seq<char>> {
    match name {
        Some(s) => Some(s@),
        None => None,
    }
}

pub open spec fn prim_view(p: ApiPrim) -> PrimV
    decreases p,
{
    match p {
        ApiPrim::Str => PrimV::Str,
        ApiPrim::Int => PrimV::Int,
        ApiPrim::Float => PrimV::Float,
        ApiPrim::Bool => PrimV::Bool,
        ApiPrim::File => PrimV::File,
        ApiPrim::Null => PrimV::Null,
        ApiPrim::Option(t) => PrimV::Option(Box::new(ty_view(*t))),
    }
}

pub open spec fn kind_view(k: ApiKind) -> KindV
    decreases k,
{
    match k {
        ApiKind::Unknown => KindV::Unknown,
        ApiKind::Recursive => KindV::Recursive,
        ApiKind::Ref(n) => KindV::Ref(n@),
        ApiKind::Prim(p) => KindV::Prim(prim_view(p)),
        ApiKind::Array(t) => KindV::Array(Box::new(ty_view(*t))),
        ApiKind::Object(fields) => KindV::Object(fields_view_of(fields)),
        ApiKind::Union(ts) => KindV::Union(tys_view_of(ts)),
        ApiKind::Combo(ts) => KindV::Combo(tys_view_of(ts)),
        ApiKind::StrEnum(ls) => KindV::StrEnum(strs_view_of(ls)),
        ApiKind::Tuple(ts) => KindV::Tuple(tys_view_of(ts)),
    }
}

/// Pointwise view of an ordered field list.
pub open spec fn fields_view_of(fields: Vec<(String, ApiType)>) -> Seq<(Seq<char>, TyV)>
    decreases fields,
{
    Seq::new(
        fields@.len(),
        |i: int|
            if 0 <= i < fields@.len() {
                (fields@[i].0@, ty_view(fields@[i].1))
            } else {
                arbitrary()
            },
    )
}

/// Pointwise view of a list of string literals.
pub open spec fn strs_view_of(ls: Vec<String>) -> Seq<Seq<char>> {
    Seq::new(ls@.len(), |i: int| ls@[i]@)
}

/// Pointwise view of a list of IR nodes.
pub open spec fn tys_view_of(ts: Vec<ApiType>) -> Seq<TyV>
    decreases ts,
{
    Seq::new(
        ts@.len(),
        |i: int| if 0 <= i < ts@.len() { ty_view(ts@[i]) } else { arbitrary() },
    )
}

pub open spec fn ty_view(t: ApiType) -> TyV
    decreases t,
{
    TyV { name: opt_str_view(t.name), kind: kind_view(t.kind) }
}

impl View for ApiType {
    type V = TyV;

    open spec fn view(&self) -> TyV {
        ty_view(*self)
    }
}

impl View for ApiKind {
    type V = KindV;

    open spec fn view(&self) -> KindV {
        kind_view(*self)
    }
}

impl View for ApiPrim {
    type V = PrimV;

    open spec fn view(&self) -> PrimV {
        prim_view(*self)
    }
}

impl TyV {
    /// A fully resolved IR value: the `Unknown` sentinel appears nowhere in it.
    pub open spec fn wf(self) -> bool
        decreases self,
    {
        self.kind.wf()
    }
}

impl KindV {
    pub open spec fn wf(self) -> bool
        decreases self,
    {
        match self {
            KindV::Unknown => false,
            KindV::Recursive => true,
            KindV::Ref(_) => true,
            KindV::Prim(p) => p.wf(),
            KindV::Array(t) => t.wf(),
            KindV::Object(fields) => fields_wf(fields),
            KindV::Union(ts) => tys_wf(ts),
            KindV::Combo(ts) => tys_wf(ts),
            KindV::StrEnum(_) => true,
            KindV::Tuple(ts) => tys_wf(ts),
        }
    }
}

/// Every node of a list is fully resolved.
pub open spec fn tys_wf(ts: Seq<TyV>) -> bool
    decreases ts,
{
    ts.len() == 0 || (tys_wf(ts.drop_last()) && ts.last().wf())
}

/// Every field type of an ordered field list is fully resolved.
pub open spec fn fields_wf(fields: Seq<(Seq<char>, TyV)>) -> bool
    decreases fields,
{
    fields.len() == 0 || (fields_wf(fields.drop_last()) && fields.last().1.wf())
}

/// A list is fully resolved exactly when each of its nodes is.
pub proof fn lemma_tys_wf_iff(ts: Seq<TyV>)
    ensures
        tys_wf(ts) <==> (forall|i: int| 0 <= i < ts.len() ==> (#[trigger] ts[i]).wf()),
    decreases ts.len(),
{
    if ts.len() > 0 {
        lemma_tys_wf_iff(ts.drop_last());
        assert(ts.last() == ts[ts.len() - 1]);
        assert forall|i: int| 0 <= i < ts.len() - 1 implies ts.drop_last()[i] == ts[i] by {}
        if tys_wf(ts) {
            assert forall|i: int| 0 <= i < ts.len() implies (#[trigger] ts[i]).wf() by {
                if i < ts.len() - 1 {
                    assert(ts.drop_last()[i].wf());
                }
            }
        }
        if forall|i: int| 0 <= i < ts.len() ==> (#[trigger] ts[i]).wf() {
            assert forall|i: int|
                0 <= i < ts.drop_last().len() implies (#[trigger] ts.drop_last()[i]).wf() by {
                assert(ts[i].wf());
            }
        }
    }
}

/// A field list is fully resolved exactly when each field's type is.
pub proof fn lemma_fields_wf_iff(fields: Seq<(Seq<char>, TyV)>)
    ensures
        fields_wf(fields) <==> (forall|i: int|
            0 <= i < fields.len() ==> (#[trigger] fields[i].1).wf()),
    decreases fields.len(),
{
    if fields.len() > 0 {
        lemma_fields_wf_iff(fields.drop_last());
        assert(fields.last() == fields[fields.len() - 1]);
        assert forall|i: int|
            0 <= i < fields.len() - 1 implies fields.drop_last()[i] == fields[i] by {}
        if fields_wf(fields) {
            assert forall|i: int| 0 <= i < fields.len() implies (#[trigger] fields[i].1).wf() by {
                if i < fields.len() - 1 {
                    assert(fields.drop_last()[i].1.wf());
                }
            }
        }
        if forall|i: int| 0 <= i < fields.len() ==> (#[trigger] fields[i].1).wf() {
            assert forall|i: int|
                0 <= i < fields.drop_last().len() implies (#[trigger] fields.drop_last()[i].1).wf()
                by {
                assert(fields[i].1.wf());
            }
        }
    }
}

impl PrimV {
    pub open spec fn wf(self) -> bool
        decreases self,
    {
        match self {
            PrimV::Option(t) => t.wf(),
            _ => true,
        }
    }
}

impl ApiType {
    pub fn new(name: Option<String>, kind: ApiKind) -> (r: Self)
        ensures
            r@ == (TyV { name: opt_str_view(name), kind: kind@ }),
            r == (ApiType { name, kind }),
    {
        Self { name, kind }
    }

    pub fn is_prim(&self) -> (r: bool)
        ensures
            r == self@.kind is Prim,
    {
        matches!(self.kind, ApiKind::Prim(_))
    }

    pub fn is_null(&self) -> (r: bool)
        ensures
            r == (self@.kind == KindV::Prim(PrimV::Null)),
    {
        proof {
            assert(self@.kind == kind_view(self.kind));
        }
        match &self.kind {
            ApiKind::Prim(p) => matches!(p, ApiPrim::Null),
            _ => false,
        }
    }
}

/// A kind and its view are the same variant.
pub proof fn lemma_kind_view_variant(k: ApiKind)
    ensures
        kind_view(k) is Object <==> k is Object,
        kind_view(k) is Union <==> k is Union,
        kind_view(k) is Combo <==> k is Combo,
        kind_view(k) is StrEnum <==> k is StrEnum,
        kind_view(k) is Prim <==> k is Prim,
        kind_view(k) is Array <==> k is Array,
        kind_view(k) is Tuple <==> k is Tuple,
        kind_view(k) is Ref <==> k is Ref,
        kind_view(k) is Recursive <==> k is Recursive,
        kind_view(k) is Unknown <==> k is Unknown,
{
    match k {
        ApiKind::Unknown => (),
        ApiKind::Recursive => (),
        ApiKind::Ref(_) => (),
        ApiKind::Prim(_) => (),
        ApiKind::Array(_) => (),
        ApiKind::Object(_) => (),
        ApiKind::Union(_) => (),
        ApiKind::Combo(_) => (),
        ApiKind::StrEnum(_) => (),
        ApiKind::Tuple(_) => (),
    }
}

/// A primitive and its view are the same variant.
pub proof fn lemma_prim_view_variant(p: ApiPrim)
    ensures
        prim_view(p) is Option <==> p is Option,
        prim_view(p) is Str <==> p is Str,
        prim_view(p) is Int <==> p is Int,
        prim_view(p) is Float <==> p is Float,
        prim_view(p) is Bool <==> p is Bool,
        prim_view(p) is File <==> p is File,
        prim_view(p) is Null <==> p is Null,
{
    match p {
        ApiPrim::Str => (),
        ApiPrim::Int => (),
        ApiPrim::Float => (),
        ApiPrim::Bool => (),
        ApiPrim::File => (),
        ApiPrim::Null => (),
        ApiPrim::Option(_) => (),
    }
}

/// Lists whose nodes agree pointwise on their views have equal views.
pub proof fn lemma_tys_view_pointwise(a: Vec<ApiType>, b: Vec<ApiType>)
    requires
        a@.len() == b@.len(),
        forall|j: int| 0 <= j < a@.len() ==> #[trigger] ty_view(a@[j]) == ty_view(b@[j]),
    ensures
        tys_view_of(a) == tys_view_of(b),
{
    let s1 = tys_view_of(a);
    let s2 = tys_view_of(b);
    assert forall|k: int| 0 <= k < s1.len() implies s1[k] == s2[k] by {
        assert(ty_view(a@[k]) == ty_view(b@[k]));
    }
    assert(s1 =~= s2);
}

/// Field lists that agree pointwise on names and views have equal views.
pub proof fn lemma_fields_view_pointwise(a: Vec<(String, ApiType)>, b: Vec<(String, ApiType)>)
    requires
        a@.len() == b@.len(),
        forall|j: int|
            0 <= j < a@.len() ==> (#[trigger] a@[j]).0@ == b@[j].0@ && ty_view(a@[j].1)
                == ty_view(b@[j].1),
    ensures
        fields_view_of(a) == fields_view_of(b),
{
    let s1 = fields_view_of(a);
    let s2 = fields_view_of(b);
    assert forall|k: int| 0 <= k < s1.len() implies s1[k] == s2[k] by {
        assert(a@[k].0@ == b@[k].0@ && ty_view(a@[k].1) == ty_view(b@[k].1));
    }
    assert(s1 =~= s2);
}

/// Literal lists that agree pointwise on their views have equal views.
pub proof fn lemma_strs_view_pointwise(a: Vec<String>, b: Vec<String>)
    requires
        a@.len() == b@.len(),
        forall|j: int| 0 <= j < a@.len() ==> #[trigger] a@[j]@ == b@[j]@,
    ensures
        strs_view_of(a) == strs_view_of(b),
{
    let s1 = strs_view_of(a);
    let s2 = strs_view_of(b);
    assert forall|k: int| 0 <= k < s1.len() implies s1[k] == s2[k] by {
        assert(a@[k]@ == b@[k]@);
    }
    assert(s1 =~= s2);
}

impl ApiType {
    /// A structural copy: the copy's view equals the original's.
    pub fn deep_copy(&self) -> (r: Self)
        ensures
            r@ == self@,
        decreases *self,
    {
        let name = match &self.name {
            Some(s) => Some(s.clone()),
            None => None,
        };
        ApiType { name, kind: self.kind.deep_copy() }
    }
}

impl ApiKind {
    pub fn deep_copy(&self) -> (r: Self)
        ensures
            r@ == self@,
        decreases *self,
    {
        match self {
            ApiKind::Unknown => ApiKind::Unknown,
            ApiKind::Recursive => ApiKind::Recursive,
            ApiKind::Ref(n) => ApiKind::Ref(n.clone()),
            ApiKind::Prim(p) => ApiKind::Prim(p.deep_copy()),
            ApiKind::Array(t) => ApiKind::Array(Box::new((**t).deep_copy())),
            ApiKind::Object(fields) => {
                let copied = deep_copy_fields(fields);
                proof {
                    lemma_fields_view_pointwise(copied, *fields);
                }
                ApiKind::Object(copied)
            },
            ApiKind::Union(ts) => ApiKind::Union(deep_copy_list(ts)),
            ApiKind::Combo(ts) => ApiKind::Combo(deep_copy_list(ts)),
            ApiKind::Tuple(ts) => ApiKind::Tuple(deep_copy_list(ts)),
            ApiKind::StrEnum(ls) => {
                let mut out: Vec<String> = Vec::new();
                let mut i: usize = 0;
                while i < ls.len()
                    invariant
                        i <= ls.len(),
                        out@.len() == i as int,
                        forall|j: int| 0 <= j < i as int ==> #[trigger] out@[j]@ == ls@[j]@,
                    decreases ls.len() - i,
                {
                    out.push(ls[i].clone());
                    i += 1;
                }
                proof {
                    lemma_strs_view_pointwise(out, *ls);
                }
                ApiKind::StrEnum(out)
            },
        }
    }
}

impl ApiPrim {
    pub fn deep_copy(&self) -> (r: Self)
        ensures
            r@ == self@,
        decreases *self,
    {
        match self {
            ApiPrim::Str => ApiPrim::Str,
            ApiPrim::Int => ApiPrim::Int,
            ApiPrim::Float => ApiPrim::Float,
            ApiPrim::Bool => ApiPrim::Bool,
            ApiPrim::File => ApiPrim::File,
            ApiPrim::Null => ApiPrim::Null,
            ApiPrim::Option(t) => ApiPrim::Option(Box::new((**t).deep_copy())),
        }
    }
}

/// A structural copy of a list of IR nodes, viewwise equal to the original.
pub fn deep_copy_list(ts: &Vec<ApiType>) -> (r: Vec<ApiType>)
    ensures
        tys_view_of(r) == tys_view_of(*ts),
        r@.len() == ts@.len(),
    decreases *ts,
{
    let mut out: Vec<ApiType> = Vec::new();
    let mut i: usize = 0;
    while i < ts.len()
        invariant
            i <= ts.len(),
            out@.len() == i as int,
            forall|j: int|
                0 <= j < i as int ==> #[trigger] ty_view(out@[j]) == ty_view(ts@[j]),
        decreases ts.len() - i,
    {
        out.push(ts[i].deep_copy());
        i += 1;
    }
    proof {
        lemma_tys_view_pointwise(out, *ts);
    }
    out
}

/// A structural copy of an ordered field list, viewwise equal to the original.
pub fn deep_copy_fields(fields: &Vec<(String, ApiType)>) -> (r: Vec<(String, ApiType)>)
    ensures
        r@.len() == fields@.len(),
        forall|j: int|
            0 <= j < fields@.len() ==> (#[trigger] r@[j]).0@ == fields@[j].0@ && ty_view(
                r@[j].1,
            ) == ty_view(fields@[j].1),
    decreases *fields,
{
    let mut out: Vec<(String, ApiType)> = Vec::new();
    let mut i: usize = 0;
    while i < fields.len()
        invariant
            i <= fields.len(),
            out@.len() == i as int,
            forall|j: int|
                0 <= j < i as int ==> (#[trigger] out@[j]).0@ == fields@[j].0@ && ty_view(
                    out@[j].1,
                ) == ty_view(fields@[j].1),
        decreases fields.len() - i,
    {
        let pair = &fields[i];
        proof {
            assert(decreases_to!(*fields => fields@[i as int]));
            assert(decreases_to!(fields@[i as int] => fields@[i as int].1));
        }
        out.push((pair.0.clone(), pair.1.deep_copy()));
        i += 1;
    }
    out
}

impl From<ApiPrim> for ApiKind {
    fn from(value: ApiPrim) -> (r: Self) {
        Self::Prim(value)
    }
}

impl vstd::std_specs::convert::FromSpecImpl<ApiPrim> for ApiKind {
    open spec fn obeys_from_spec() -> bool {
        true
    }

    open spec fn from_spec(value: ApiPrim) -> Self {
        ApiKind::Prim(value)
    }
}

} // verus!
