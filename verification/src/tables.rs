//! Tables used during a resolution pass.
//!
//! - `SchemaTable`: the document's named schema definitions, in declaration
//!   order, viewed both as an ordered sequence and as a map.
//! - `TypeTable`: the reference table — the memoization map from schema name
//!   to resolved IR type.
//! - `AncestorSet`: the set of names currently being resolved on the path
//!   from the root of a resolution call; used for cycle detection.
//!
//! Map views are defined from the end of the entry list, so appending an
//! entry is exactly `Map::insert`.

use vstd::prelude::*;

use crate::ir::{ty_view, ApiType, TyV};
use crate::raw::{ref_or_view, OaSchema, RefOr, RefOrV};

verus! {

broadcast use
    vstd::seq::group_seq_axioms,
    vstd::std_specs::vec::group_vec_axioms,
    vstd::map::group_map_axioms,
    vstd::set::group_set_axioms;

/// Whether two string slices hold the same characters.
pub fn str_eq(a: &str, b: &str) -> (r: bool)
    ensures
        r == (a@ == b@),
{
    let sa = a.to_owned();
    let sb = b.to_owned();
    sa == sb
}

// ------------------------------------------------------------------
// SchemaTable
// ------------------------------------------------------------------

/// The named schema definitions of a document, in declaration order.
pub struct SchemaTable {
    pub entries: Vec<(String, RefOr<OaSchema>)>,
}

/// The map denoted by an entry list; a later entry shadows an earlier one.
pub open spec fn schema_entries_map(entries: Seq<(String, RefOr<OaSchema>)>) -> Map<
    Seq<char>,
    RefOrV,
>
    decreases entries.len(),
{
    if entries.len() == 0 {
        Map::empty()
    } else {
        schema_entries_map(entries.drop_last()).insert(
            entries.last().0@,
            ref_or_view(entries.last().1),
        )
    }
}

impl View for SchemaTable {
    type V = Map<Seq<char>, RefOrV>;

    open spec fn view(&self) -> Map<Seq<char>, RefOrV> {
        schema_entries_map(self.entries@)
    }
}

pub proof fn lemma_schema_entries_map_finite(entries: Seq<(String, RefOr<OaSchema>)>)
    ensures
        schema_entries_map(entries).dom().finite(),
    decreases entries.len(),
{
    if entries.len() > 0 {
        lemma_schema_entries_map_finite(entries.drop_last());
    }
}

impl SchemaTable {
    /// The entry views in declaration order.
    pub open spec fn order(&self) -> Seq<(Seq<char>, RefOrV)> {
        Seq::new(
            self.entries@.len(),
            |i: int|
                if 0 <= i < self.entries@.len() {
                    (self.entries@[i].0@, ref_or_view(self.entries@[i].1))
                } else {
                    arbitrary()
                },
        )
    }

    pub fn new(entries: Vec<(String, RefOr<OaSchema>)>) -> (r: Self)
        ensures
            r@ == schema_entries_map(entries@),
            r.order().len() == entries@.len(),
            forall|i: int|
                0 <= i < entries@.len() ==> #[trigger] r.order()[i] == (
                    entries@[i].0@,
                    ref_or_view(entries@[i].1),
                ),
    {
        Self { entries }
    }

    pub fn len(&self) -> (r: usize)
        ensures
            r == self.order().len(),
    {
        self.entries.len()
    }

    /// The entry at one position of the declaration order.
    pub fn entry(&self, i: usize) -> (r: (&String, &RefOr<OaSchema>))
        requires
            i < self.order().len(),
        ensures
            (r.0@, ref_or_view(*r.1)) == self.order()[i as int],
    {
        let pair = &self.entries[i];
        (&pair.0, &pair.1)
    }

    /// Looks a name up; the latest entry under the name wins.
    pub fn get(&self, name: &String) -> (r: Option<&RefOr<OaSchema>>)
        ensures
            match r {
                Some(v) => self@.contains_key(name@) && ref_or_view(*v) == self@[name@],
                None => !self@.contains_key(name@),
            },
    {
        let mut i: usize = self.entries.len();
        while i > 0
            invariant
                i <= self.entries@.len(),
                !schema_entries_map(self.entries@.subrange(i as int, self.entries@.len() as int))
                    .contains_key(name@),
                self@ == schema_entries_map(self.entries@),
            decreases i,
        {
            i -= 1;
            let pair = &self.entries[i];
            if pair.0 == *name {
                proof {
                    lemma_schema_suffix_found(self.entries@, i as int, name@);
                }
                return Some(&pair.1);
            }
            proof {
                lemma_schema_suffix_step(self.entries@, i as int, name@);
            }
        }
        proof {
            assert(self.entries@.subrange(0, self.entries@.len() as int) =~= self.entries@);
        }
        None
    }
}

/// Extends a no-match suffix scan by one non-matching entry.
proof fn lemma_schema_suffix_step(entries: Seq<(String, RefOr<OaSchema>)>, i: int, key: Seq<char>)
    requires
        0 <= i < entries.len(),
        entries[i].0@ != key,
        !schema_entries_map(entries.subrange(i + 1, entries.len() as int)).contains_key(key),
    ensures
        !schema_entries_map(entries.subrange(i, entries.len() as int)).contains_key(key),
    decreases entries.len(),
{
    let n = entries.len() as int;
    if i == n - 1 {
        let whole = entries.subrange(i, n);
        assert(whole.last() == entries[i]);
        assert(whole.drop_last() =~= Seq::<(String, RefOr<OaSchema>)>::empty());
        assert(schema_entries_map(Seq::<(String, RefOr<OaSchema>)>::empty())
            == Map::<Seq<char>, RefOrV>::empty());
        assert(!schema_entries_map(whole).contains_key(key));
    } else {
        let whole = entries.subrange(i, n);
        let inner = entries.subrange(i + 1, n);
        assert(inner.drop_last() =~= entries.subrange(i + 1, n - 1));
        assert(inner.last() == entries[n - 1]);
        assert(key != entries[n - 1].0@);
        assert(entries.drop_last().subrange(i + 1, n - 1) =~= entries.subrange(i + 1, n - 1));
        lemma_schema_suffix_step(entries.drop_last(), i, key);
        assert(entries.drop_last().subrange(i, n - 1) =~= entries.subrange(i, n - 1));
        assert(!schema_entries_map(entries.subrange(i, n - 1)).contains_key(key));
        assert(whole.drop_last() =~= entries.subrange(i, n - 1));
        assert(whole.last() == entries[n - 1]);
        let base = schema_entries_map(entries.subrange(i, n - 1));
        let k1 = entries[n - 1].0@;
        assert(schema_entries_map(whole) == base.insert(k1, ref_or_view(entries[n - 1].1)));
        assert(base.insert(k1, ref_or_view(entries[n - 1].1)).dom() == base.dom().insert(k1));
        assert(!base.dom().contains(key));
        assert(!base.dom().insert(k1).contains(key));
        assert(!schema_entries_map(whole).contains_key(key));
    }
}

/// If a suffix scan stops at position `i` with a key match and no later
/// entry matches, the whole list's map holds position `i`'s value under it.
proof fn lemma_schema_suffix_found(entries: Seq<(String, RefOr<OaSchema>)>, i: int, key: Seq<char>)
    requires
        0 <= i < entries.len(),
        entries[i].0@ == key,
        !schema_entries_map(entries.subrange(i + 1, entries.len() as int)).contains_key(key),
    ensures
        schema_entries_map(entries).contains_key(key),
        schema_entries_map(entries)[key] == ref_or_view(entries[i].1),
    decreases entries.len(),
{
    let n = entries.len() as int;
    if i == n - 1 {
    } else {
        let suffix = entries.subrange(i + 1, n);
        assert(suffix.drop_last() =~= entries.subrange(i + 1, n - 1));
        assert(suffix.last() == entries[n - 1]);
        assert(entries.drop_last().subrange(i + 1, n - 1) =~= entries.subrange(i + 1, n - 1));
        lemma_schema_suffix_found(entries.drop_last(), i, key);
    }
}

// ------------------------------------------------------------------
// TypeTable
// ------------------------------------------------------------------

/// The reference table: a memoization map from schema name to resolved type.
pub struct TypeTable {
    pub entries: Vec<(String, ApiType)>,
}

/// The map denoted by a memo entry list; a later entry shadows an earlier one.
pub open spec fn memo_entries_map(entries: Seq<(String, ApiType)>) -> Map<Seq<char>, TyV>
    decreases entries.len(),
{
    if entries.len() == 0 {
        Map::empty()
    } else {
        memo_entries_map(entries.drop_last()).insert(
            entries.last().0@,
            ty_view(entries.last().1),
        )
    }
}

impl View for TypeTable {
    type V = Map<Seq<char>, TyV>;

    open spec fn view(&self) -> Map<Seq<char>, TyV> {
        memo_entries_map(self.entries@)
    }
}

impl TypeTable {
    pub fn new() -> (r: Self)
        ensures
            r@ == Map::<Seq<char>, TyV>::empty(),
    {
        Self { entries: Vec::new() }
    }

    /// Looks a name up; the latest entry under the name wins.
    pub fn get(&self, name: &String) -> (r: Option<&ApiType>)
        ensures
            match r {
                Some(v) => self@.contains_key(name@) && ty_view(*v) == self@[name@],
                None => !self@.contains_key(name@),
            },
    {
        let mut i: usize = self.entries.len();
        while i > 0
            invariant
                i <= self.entries@.len(),
                !memo_entries_map(self.entries@.subrange(i as int, self.entries@.len() as int))
                    .contains_key(name@),
                self@ == memo_entries_map(self.entries@),
            decreases i,
        {
            i -= 1;
            let pair = &self.entries[i];
            if pair.0 == *name {
                proof {
                    lemma_memo_suffix_found(self.entries@, i as int, name@);
                }
                return Some(&pair.1);
            }
            proof {
                lemma_memo_suffix_step(self.entries@, i as int, name@);
            }
        }
        proof {
            assert(self.entries@.subrange(0, self.entries@.len() as int) =~= self.entries@);
        }
        None
    }

    /// Registers a resolved type under a name.
    pub fn insert(&mut self, name: String, t: ApiType)
        ensures
            final(self)@ == old(self)@.insert(name@, ty_view(t)),
    {
        self.entries.push((name, t));
        proof {
            assert(self.entries@.drop_last() =~= old(self).entries@);
        }
    }
}

/// Extends a no-match suffix scan by one non-matching entry.
proof fn lemma_memo_suffix_step(entries: Seq<(String, ApiType)>, i: int, key: Seq<char>)
    requires
        0 <= i < entries.len(),
        entries[i].0@ != key,
        !memo_entries_map(entries.subrange(i + 1, entries.len() as int)).contains_key(key),
    ensures
        !memo_entries_map(entries.subrange(i, entries.len() as int)).contains_key(key),
    decreases entries.len(),
{
    let n = entries.len() as int;
    if i == n - 1 {
        let whole = entries.subrange(i, n);
        assert(whole.last() == entries[i]);
        assert(whole.drop_last() =~= Seq::<(String, ApiType)>::empty());
        assert(memo_entries_map(Seq::<(String, ApiType)>::empty())
            == Map::<Seq<char>, TyV>::empty());
        assert(!memo_entries_map(whole).contains_key(key));
    } else {
        let whole = entries.subrange(i, n);
        let inner = entries.subrange(i + 1, n);
        assert(inner.drop_last() =~= entries.subrange(i + 1, n - 1));
        assert(inner.last() == entries[n - 1]);
        assert(key != entries[n - 1].0@);
        assert(entries.drop_last().subrange(i + 1, n - 1) =~= entries.subrange(i + 1, n - 1));
        lemma_memo_suffix_step(entries.drop_last(), i, key);
        assert(entries.drop_last().subrange(i, n - 1) =~= entries.subrange(i, n - 1));
        assert(!memo_entries_map(entries.subrange(i, n - 1)).contains_key(key));
        assert(whole.drop_last() =~= entries.subrange(i, n - 1));
        assert(whole.last() == entries[n - 1]);
        let base = memo_entries_map(entries.subrange(i, n - 1));
        let k1 = entries[n - 1].0@;
        assert(memo_entries_map(whole) == base.insert(k1, ty_view(entries[n - 1].1)));
        assert(base.insert(k1, ty_view(entries[n - 1].1)).dom() == base.dom().insert(k1));
        assert(!base.dom().contains(key));
        assert(!base.dom().insert(k1).contains(key));
        assert(!memo_entries_map(whole).contains_key(key));
    }
}

proof fn lemma_memo_suffix_found(entries: Seq<(String, ApiType)>, i: int, key: Seq<char>)
    requires
        0 <= i < entries.len(),
        entries[i].0@ == key,
        !memo_entries_map(entries.subrange(i + 1, entries.len() as int)).contains_key(key),
    ensures
        memo_entries_map(entries).contains_key(key),
        memo_entries_map(entries)[key] == ty_view(entries[i].1),
    decreases entries.len(),
{
    let n = entries.len() as int;
    if i == n - 1 {
    } else {
        let suffix = entries.subrange(i + 1, n);
        assert(suffix.drop_last() =~= entries.subrange(i + 1, n - 1));
        assert(suffix.last() == entries[n - 1]);
        assert(entries.drop_last().subrange(i + 1, n - 1) =~= entries.subrange(i + 1, n - 1));
        lemma_memo_suffix_found(entries.drop_last(), i, key);
    }
}

// ------------------------------------------------------------------
// AncestorSet
// ------------------------------------------------------------------

/// The names currently being resolved on the path from the root of a
/// resolution call. Copied at each branch point: a sibling subtree must not
/// observe names pushed in another branch.
pub struct AncestorSet {
    pub names: Vec<String>,
}

pub open spec fn names_set(names: Seq<String>) -> Set<Seq<char>>
    decreases names.len(),
{
    if names.len() == 0 {
        Set::empty()
    } else {
        names_set(names.drop_last()).insert(names.last()@)
    }
}

impl View for AncestorSet {
    type V = Set<Seq<char>>;

    open spec fn view(&self) -> Set<Seq<char>> {
        names_set(self.names@)
    }
}

pub proof fn lemma_names_set_finite(names: Seq<String>)
    ensures
        names_set(names).finite(),
    decreases names.len(),
{
    if names.len() > 0 {
        lemma_names_set_finite(names.drop_last());
    }
}

proof fn lemma_names_set_contains(names: Seq<String>, key: Seq<char>)
    ensures
        names_set(names).contains(key) <==> exists|j: int|
            0 <= j < names.len() && #[trigger] names[j]@ == key,
    decreases names.len(),
{
    if names.len() > 0 {
        lemma_names_set_contains(names.drop_last(), key);
        if names.last()@ == key {
            assert(names[names.len() - 1]@ == key);
        }
        assert forall|j: int| 0 <= j < names.len() && #[trigger] names[j]@ == key implies
            names_set(names).contains(key) by {
            if j < names.len() - 1 {
                assert(names.drop_last()[j]@ == key);
            }
        }
    }
}

impl AncestorSet {
    pub fn new() -> (r: Self)
        ensures
            r@ == Set::<Seq<char>>::empty(),
    {
        Self { names: Vec::new() }
    }

    pub fn contains(&self, name: &String) -> (r: bool)
        ensures
            r == self@.contains(name@),
    {
        let mut i: usize = 0;
        while i < self.names.len()
            invariant
                i <= self.names@.len(),
                forall|j: int| 0 <= j < i as int ==> #[trigger] self.names@[j]@ != name@,
            decreases self.names@.len() - i,
        {
            if self.names[i] == *name {
                proof {
                    lemma_names_set_contains(self.names@, name@);
                    assert(self.names@[i as int]@ == name@);
                }
                return true;
            }
            i += 1;
        }
        proof {
            lemma_names_set_contains(self.names@, name@);
        }
        false
    }

    pub fn insert(&mut self, name: String)
        ensures
            final(self)@ == old(self)@.insert(name@),
    {
        self.names.push(name);
        proof {
            assert(self.names@.drop_last() =~= old(self).names@);
        }
    }

    /// An independent copy, for handing to a sibling branch.
    pub fn duplicate(&self) -> (r: Self)
        ensures
            r@ == self@,
    {
        let mut names: Vec<String> = Vec::new();
        let mut i: usize = 0;
        while i < self.names.len()
            invariant
                i <= self.names@.len(),
                names@.len() == i as int,
                forall|j: int| 0 <= j < i as int ==> #[trigger] names@[j] == self.names@[j],
            decreases self.names@.len() - i,
        {
            names.push(self.names[i].clone());
            i += 1;
        }
        proof {
            assert(names@ =~= self.names@);
        }
        Self { names }
    }
}

} // verus!
