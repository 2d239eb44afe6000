//! A multimap from source locations to semantic ids, with one bucket per kind
//! of definition.

use vstd::prelude::*;
use crate::ids::{
    ConstId, EnumId, EnumVariantId, FieldId, FunctionId, ImplId, MacroCallId, SourceLoc,
    StaticId, StructId, TraitId, TypeAliasId, UnionId,
};

verus! {

/// The buckets of a [`DynMap`].
#[derive(Clone, Copy, Debug, PartialEq, Eq, Structural, Hash)]
pub enum ChildKind {
    Function,
    Const,
    Static,
    TypeAlias,
    Trait,
    Struct,
    Union,
    Enum,
    Impl,
    Variant,
    TupleField,
    RecordField,
    AttrMacro,
}

/// A semantic id, tagged with the bucket it belongs in.
#[derive(Clone, Copy, Debug, PartialEq, Eq, Structural, Hash)]
pub enum ChildId {
    Function(FunctionId),
    Const(ConstId),
    Static(StaticId),
    TypeAlias(TypeAliasId),
    Trait(TraitId),
    Struct(StructId),
    Union(UnionId),
    Enum(EnumId),
    Impl(ImplId),
    Variant(EnumVariantId),
    TupleField(FieldId),
    RecordField(FieldId),
    AttrMacro(MacroCallId),
}

impl ChildId {
    pub open spec fn kind_of(self) -> ChildKind {
        match self {
            ChildId::Function(_) => ChildKind::Function,
            ChildId::Const(_) => ChildKind::Const,
            ChildId::Static(_) => ChildKind::Static,
            ChildId::TypeAlias(_) => ChildKind::TypeAlias,
            ChildId::Trait(_) => ChildKind::Trait,
            ChildId::Struct(_) => ChildKind::Struct,
            ChildId::Union(_) => ChildKind::Union,
            ChildId::Enum(_) => ChildKind::Enum,
            ChildId::Impl(_) => ChildKind::Impl,
            ChildId::Variant(_) => ChildKind::Variant,
            ChildId::TupleField(_) => ChildKind::TupleField,
            ChildId::RecordField(_) => ChildKind::RecordField,
            ChildId::AttrMacro(_) => ChildKind::AttrMacro,
        }
    }

    /// The bucket this id is stored in.
    pub fn kind(&self) -> (r: ChildKind)
        ensures
            r == self.kind_of(),
    {
        match self {
            ChildId::Function(_) => ChildKind::Function,
            ChildId::Const(_) => ChildKind::Const,
            ChildId::Static(_) => ChildKind::Static,
            ChildId::TypeAlias(_) => ChildKind::TypeAlias,
            ChildId::Trait(_) => ChildKind::Trait,
            ChildId::Struct(_) => ChildKind::Struct,
            ChildId::Union(_) => ChildKind::Union,
            ChildId::Enum(_) => ChildKind::Enum,
            ChildId::Impl(_) => ChildKind::Impl,
            ChildId::Variant(_) => ChildKind::Variant,
            ChildId::TupleField(_) => ChildKind::TupleField,
            ChildId::RecordField(_) => ChildKind::RecordField,
            ChildId::AttrMacro(_) => ChildKind::AttrMacro,
        }
    }
}

/// A key of the index: a bucket and a location within it.
pub type ChildKey = (ChildKind, SourceLoc);

/// A child found in a container: where it comes from, and what it is.
pub type ChildEntry = (SourceLoc, ChildId);

pub open spec fn key_of(e: ChildEntry) -> ChildKey {
    (e.1.kind_of(), e.0)
}

/// The index obtained from `m` by inserting the entries of `s` in order, a
/// later entry replacing an earlier one at the same key.
pub open spec fn insert_all(m: Map<ChildKey, ChildId>, s: Seq<ChildEntry>) -> Map<ChildKey, ChildId>
    decreases s.len(),
{
    if s.len() == 0 {
        m
    } else {
        insert_all(m, s.drop_last()).insert(key_of(s.last()), s.last().1)
    }
}

/// No two entries of `s` share a key.
pub open spec fn keys_distinct(s: Seq<ChildEntry>) -> bool {
    forall|i: int, j: int| 0 <= i < j < s.len() ==> key_of(s[i]) != key_of(s[j])
}

/// Inserting `s1` and then `s2` is inserting `s1 + s2`.
pub proof fn lemma_insert_all_concat(m: Map<ChildKey, ChildId>, s1: Seq<ChildEntry>, s2: Seq<ChildEntry>)
    ensures
        insert_all(m, s1 + s2) == insert_all(insert_all(m, s1), s2),
    decreases s2.len(),
{
    if s2.len() == 0 {
        assert(s1 + s2 =~= s1);
    } else {
        assert((s1 + s2).drop_last() =~= s1 + s2.drop_last());
        lemma_insert_all_concat(m, s1, s2.drop_last());
    }
}

/// Inserting the first `i + 1` entries is inserting the first `i`, then entry `i`.
pub proof fn lemma_insert_all_take(m: Map<ChildKey, ChildId>, s: Seq<ChildEntry>, i: int)
    requires
        0 <= i < s.len(),
    ensures
        insert_all(m, s.take(i + 1)) == insert_all(m, s.take(i)).insert(key_of(s[i]), s[i].1),
{
    assert(s.take(i + 1).drop_last() =~= s.take(i));
}

/// Inserting a single entry.
pub proof fn lemma_insert_all_one(m: Map<ChildKey, ChildId>, e: ChildEntry)
    ensures
        insert_all(m, seq![e]) == m.insert(key_of(e), e.1),
        insert_all(m, Seq::<ChildEntry>::empty()) == m,
{
    assert(insert_all(m, Seq::<ChildEntry>::empty()) == m);
    assert(seq![e].drop_last() =~= Seq::<ChildEntry>::empty());
    assert(seq![e].last() == e);
}

/// A key is in the index exactly when it was there before or some entry has it,
/// and a key that no entry has keeps its old value.
pub proof fn lemma_insert_all_key(m: Map<ChildKey, ChildId>, s: Seq<ChildEntry>, k: ChildKey)
    ensures
        insert_all(m, s).contains_key(k) <==> (m.contains_key(k) || exists|i: int|
            0 <= i < s.len() && key_of(#[trigger] s[i]) == k),
        (forall|i: int| 0 <= i < s.len() ==> key_of(#[trigger] s[i]) != k) ==> insert_all(m, s)[k]
            == m[k],
    decreases s.len(),
{
    if s.len() > 0 {
        let p = s.drop_last();
        lemma_insert_all_key(m, p, k);
        if exists|i: int| 0 <= i < p.len() && key_of(#[trigger] p[i]) == k {
            let i = choose|i: int| 0 <= i < p.len() && key_of(#[trigger] p[i]) == k;
            assert(s[i] == p[i]);
        }
        if exists|i: int| 0 <= i < s.len() && key_of(#[trigger] s[i]) == k {
            let i = choose|i: int| 0 <= i < s.len() && key_of(#[trigger] s[i]) == k;
            if i < p.len() {
                assert(s[i] == p[i]);
            }
        }
        if forall|i: int| 0 <= i < s.len() ==> key_of(#[trigger] s[i]) != k {
            assert forall|i: int| 0 <= i < p.len() implies key_of(#[trigger] p[i]) != k by {
                assert(s[i] == p[i]);
            }
            assert(key_of(s[s.len() - 1]) != k);
        }
    }
}

/// The entry at `i` is found at its key, and, when no later entry has that key,
/// with its own id.
pub proof fn lemma_insert_all_entry(m: Map<ChildKey, ChildId>, s: Seq<ChildEntry>, i: int)
    requires
        0 <= i < s.len(),
    ensures
        insert_all(m, s).contains_key(key_of(s[i])),
        (forall|j: int| i < j < s.len() ==> key_of(#[trigger] s[j]) != key_of(s[i])) ==> insert_all(
            m,
            s,
        )[key_of(s[i])] == s[i].1,
    decreases s.len(),
{
    let p = s.drop_last();
    if i < s.len() - 1 {
        lemma_insert_all_entry(m, p, i);
        assert(s[i] == p[i]);
        if forall|j: int| i < j < s.len() ==> key_of(#[trigger] s[j]) != key_of(s[i]) {
            assert forall|j: int| i < j < p.len() implies key_of(#[trigger] p[j]) != key_of(p[i]) by {
                assert(s[j] == p[j]);
            }
            assert(key_of(s[s.len() - 1]) != key_of(s[i]));
        }
    }
}

/// Every value of the index was in `m` before, or is the id of some entry at
/// that key.
pub proof fn lemma_insert_all_value(m: Map<ChildKey, ChildId>, s: Seq<ChildEntry>, k: ChildKey)
    requires
        insert_all(m, s).contains_key(k),
    ensures
        (m.contains_key(k) && insert_all(m, s)[k] == m[k]) || exists|i: int|
            0 <= i < s.len() && key_of(#[trigger] s[i]) == k && s[i].1 == insert_all(m, s)[k],
    decreases s.len(),
{
    if s.len() > 0 && key_of(s.last()) != k {
        let p = s.drop_last();
        lemma_insert_all_value(m, p, k);
        if !(m.contains_key(k) && insert_all(m, p)[k] == m[k]) {
            let i = choose|i: int|
                0 <= i < p.len() && key_of(#[trigger] p[i]) == k && p[i].1 == insert_all(m, p)[k];
            assert(s[i] == p[i]);
        }
    } else if s.len() > 0 {
        assert(key_of(s[s.len() - 1]) == k);
    }
}

/// With distinct keys, replacing the entry at `i` by one with the same key is
/// inserting it.
proof fn lemma_insert_all_update(s: Seq<ChildEntry>, i: int, e: ChildEntry)
    requires
        0 <= i < s.len(),
        keys_distinct(s),
        key_of(e) == key_of(s[i]),
    ensures
        insert_all(Map::empty(), s.update(i, e)) == insert_all(Map::empty(), s).insert(key_of(e), e.1),
    decreases s.len(),
{
    let u = s.update(i, e);
    let p = s.drop_last();
    if i == s.len() - 1 {
        assert(u.drop_last() =~= p);
        assert(insert_all(Map::empty(), u) =~= insert_all(Map::empty(), s).insert(key_of(e), e.1));
    } else {
        assert(u.drop_last() =~= p.update(i, e));
        assert(keys_distinct(p)) by {
            assert forall|a: int, b: int| 0 <= a < b < p.len() implies key_of(p[a]) != key_of(
                p[b],
            ) by {
                assert(p[a] == s[a] && p[b] == s[b]);
            }
        }
        assert(p[i] == s[i]);
        lemma_insert_all_update(p, i, e);
        assert(key_of(s[s.len() - 1]) != key_of(s[i]));
        assert(insert_all(Map::empty(), u) =~= insert_all(Map::empty(), s).insert(key_of(e), e.1));
    }
}

/// With distinct keys, the index holds exactly as many keys as there are entries.
pub proof fn lemma_insert_all_len(s: Seq<ChildEntry>)
    requires
        keys_distinct(s),
    ensures
        insert_all(Map::empty(), s).dom().finite(),
        insert_all(Map::empty(), s).dom().len() == s.len(),
    decreases s.len(),
{
    if s.len() > 0 {
        let p = s.drop_last();
        assert(keys_distinct(p)) by {
            assert forall|a: int, b: int| 0 <= a < b < p.len() implies key_of(p[a]) != key_of(
                p[b],
            ) by {
                assert(p[a] == s[a] && p[b] == s[b]);
            }
        }
        lemma_insert_all_len(p);
        lemma_insert_all_key(Map::empty(), p, key_of(s.last()));
        if exists|i: int| 0 <= i < p.len() && key_of(#[trigger] p[i]) == key_of(s.last()) {
            let i = choose|i: int| 0 <= i < p.len() && key_of(#[trigger] p[i]) == key_of(s.last());
            assert(p[i] == s[i]);
            assert(false);
        }
    }
}

/// The reverse index of a container: for each bucket, a map from the location
/// of a child to its id.
pub struct DynMap {
    entries: Vec<ChildEntry>,
}

impl View for DynMap {
    type V = Map<ChildKey, ChildId>;

    closed spec fn view(&self) -> Map<ChildKey, ChildId> {
        insert_all(Map::empty(), self.entries@)
    }
}

impl DynMap {
    /// The representation invariant: each key is stored once.
    pub closed spec fn wf(&self) -> bool {
        keys_distinct(self.entries@)
    }

    /// An index with no entries.
    pub fn new() -> (r: DynMap)
        ensures
            r.wf(),
            r@ == Map::<ChildKey, ChildId>::empty(),
    {
        DynMap { entries: Vec::new() }
    }

    /// Records `id` at `loc` in the bucket of its kind, replacing whatever was
    /// there.
    pub fn insert(&mut self, loc: SourceLoc, id: ChildId)
        requires
            old(self).wf(),
        ensures
            final(self).wf(),
            final(self)@ == old(self)@.insert((id.kind_of(), loc), id),
    {
        let kind = id.kind();
        let ghost s = self.entries@;
        let mut i: usize = 0;
        while i < self.entries.len()
            invariant
                self.entries@ == s,
                s == old(self).entries@,
                keys_distinct(s),
                kind == id.kind_of(),
                i <= s.len(),
                forall|j: int| 0 <= j < i ==> key_of(#[trigger] s[j]) != (kind, loc),
            decreases s.len() - i,
        {
            let e = self.entries[i];
            if e.0 == loc && e.1.kind() == kind {
                proof {
                    lemma_insert_all_update(s, i as int, (loc, id));
                }
                self.entries.set(i, (loc, id));
                assert(keys_distinct(self.entries@)) by {
                    assert forall|a: int, b: int| 0 <= a < b < self.entries@.len() implies key_of(
                        self.entries@[a],
                    ) != key_of(self.entries@[b]) by {
                        assert(key_of(self.entries@[a]) == key_of(s[a]));
                        assert(key_of(self.entries@[b]) == key_of(s[b]));
                    }
                }
                return;
            }
            i = i + 1;
        }
        self.entries.push((loc, id));
        assert(self.entries@.drop_last() =~= s);
        assert(keys_distinct(self.entries@)) by {
            assert forall|a: int, b: int| 0 <= a < b < self.entries@.len() implies key_of(
                self.entries@[a],
            ) != key_of(self.entries@[b]) by {
                if b < s.len() {
                    assert(self.entries@[a] == s[a] && self.entries@[b] == s[b]);
                } else {
                    assert(self.entries@[a] == s[a]);
                }
            }
        }
    }

    /// The id recorded at `loc` in the bucket `kind`.
    pub fn get(&self, kind: ChildKind, loc: SourceLoc) -> (r: Option<ChildId>)
        requires
            self.wf(),
        ensures
            r == (if self@.contains_key((kind, loc)) {
                Some(self@[(kind, loc)])
            } else {
                None
            }),
    {
        let ghost s = self.entries@;
        let mut i: usize = 0;
        while i < self.entries.len()
            invariant
                self.entries@ == s,
                keys_distinct(s),
                i <= s.len(),
                forall|j: int| 0 <= j < i ==> key_of(#[trigger] s[j]) != (kind, loc),
            decreases s.len() - i,
        {
            let e = self.entries[i];
            if e.0 == loc && e.1.kind() == kind {
                proof {
                    lemma_insert_all_entry(Map::empty(), s, i as int);
                }
                return Some(e.1);
            }
            i = i + 1;
        }
        proof {
            lemma_insert_all_key(Map::empty(), s, (kind, loc));
        }
        None
    }

    /// The number of entries, over all buckets.
    pub fn len(&self) -> (r: usize)
        requires
            self.wf(),
        ensures
            self@.dom().finite(),
            r == self@.dom().len(),
    {
        proof {
            lemma_insert_all_len(self.entries@);
        }
        self.entries.len()
    }
}

/// Inserting twice at one key leaves what inserting the second id once does:
/// one entry, holding the last id.
pub proof fn lemma_last_insert_wins(m: Map<ChildKey, ChildId>, loc: SourceLoc, a: ChildId, b: ChildId)
    requires
        a.kind_of() == b.kind_of(),
    ensures
        m.insert((a.kind_of(), loc), a).insert((b.kind_of(), loc), b) == m.insert((b.kind_of(), loc), b),
        m.insert((a.kind_of(), loc), a).insert((b.kind_of(), loc), b).dom() == m.insert((a.kind_of(), loc), a).dom(),
{
    assert(m.insert((a.kind_of(), loc), a).insert((b.kind_of(), loc), b) =~= m.insert((b.kind_of(), loc), b));
    assert(m.insert((a.kind_of(), loc), a).insert((b.kind_of(), loc), b).dom() =~= m.insert((a.kind_of(), loc), a).dom());
}

/// With distinct keys, the order of insertion does not matter: two sequences
/// that hold the same entries give the same index.
pub proof fn lemma_insert_all_order_free(s1: Seq<ChildEntry>, s2: Seq<ChildEntry>)
    requires
        keys_distinct(s1),
        keys_distinct(s2),
        forall|e: ChildEntry| s1.contains(e) <==> s2.contains(e),
    ensures
        insert_all(Map::empty(), s1) == insert_all(Map::empty(), s2),
{
    let m1 = insert_all(Map::empty(), s1);
    let m2 = insert_all(Map::empty(), s2);
    assert forall|k: ChildKey| #[trigger] m1.contains_key(k) == m2.contains_key(k) by {
        lemma_insert_all_key(Map::empty(), s1, k);
        lemma_insert_all_key(Map::empty(), s2, k);
        if exists|i: int| 0 <= i < s1.len() && key_of(#[trigger] s1[i]) == k {
            let i = choose|i: int| 0 <= i < s1.len() && key_of(#[trigger] s1[i]) == k;
            assert(s1.contains(s1[i]));
            let j = choose|j: int| 0 <= j < s2.len() && s2[j] == s1[i];
            assert(key_of(s2[j]) == k);
        }
        if exists|j: int| 0 <= j < s2.len() && key_of(#[trigger] s2[j]) == k {
            let j = choose|j: int| 0 <= j < s2.len() && key_of(#[trigger] s2[j]) == k;
            assert(s2.contains(s2[j]));
            let i = choose|i: int| 0 <= i < s1.len() && s1[i] == s2[j];
            assert(key_of(s1[i]) == k);
        }
    }
    assert forall|k: ChildKey| #[trigger] m1.contains_key(k) implies m1[k] == m2[k] by {
        lemma_insert_all_key(Map::empty(), s1, k);
        let i = choose|i: int| 0 <= i < s1.len() && key_of(#[trigger] s1[i]) == k;
        assert(s1.contains(s1[i]));
        let j = choose|j: int| 0 <= j < s2.len() && s2[j] == s1[i];
        lemma_insert_all_entry(Map::empty(), s1, i);
        lemma_insert_all_entry(Map::empty(), s2, j);
    }
    assert(m1 =~= m2);
}

} // verus!
