//! The reverse direction of lowering: from the syntax node of a child to its
//! semantic id. Each kind of container lists the children it declares, and
//! the index of a container maps the location of each child to its id.

use vstd::prelude::*;
use crate::dyn_map::{
    insert_all, key_of, keys_distinct, lemma_insert_all_concat, lemma_insert_all_entry,
    lemma_insert_all_key, lemma_insert_all_len, lemma_insert_all_one, lemma_insert_all_order_free,
    lemma_insert_all_take, lemma_insert_all_value, ChildEntry, ChildId, ChildKey, ChildKind,
    DynMap,
};
use crate::ids::{
    AdtId, FunctionId, MacroCallId, SourceLoc, AssocItemId, DefWithBodyId, EnumId, EnumVariantId, FieldId, ImplId, ModuleDefId,
    ModuleId, TraitId, VariantId,
};
use crate::store::{DefDatabase, FieldSource, ItemScope};

verus! {

/// The id that a declared item is indexed under, if it is indexed at all.
pub open spec fn module_def_child(d: ModuleDefId) -> Option<ChildId> {
    match d {
        ModuleDefId::FunctionId(f) => Some(ChildId::Function(f)),
        ModuleDefId::ConstId(c) => Some(ChildId::Const(c)),
        ModuleDefId::StaticId(s) => Some(ChildId::Static(s)),
        ModuleDefId::TypeAliasId(t) => Some(ChildId::TypeAlias(t)),
        ModuleDefId::TraitId(t) => Some(ChildId::Trait(t)),
        ModuleDefId::AdtId(AdtId::StructId(s)) => Some(ChildId::Struct(s)),
        ModuleDefId::AdtId(AdtId::UnionId(u)) => Some(ChildId::Union(u)),
        ModuleDefId::AdtId(AdtId::EnumId(e)) => Some(ChildId::Enum(e)),
        ModuleDefId::ModuleId(_) => None,
        ModuleDefId::EnumVariantId(_) => None,
    }
}

pub open spec fn assoc_child(a: AssocItemId) -> ChildId {
    match a {
        AssocItemId::FunctionId(f) => ChildId::Function(f),
        AssocItemId::ConstId(c) => ChildId::Const(c),
        AssocItemId::TypeAliasId(t) => ChildId::TypeAlias(t),
    }
}

/// The entry of a child that is located through the definition store: none
/// when it has no location.
pub open spec fn located_entry(db: &DefDatabase, c: Option<ChildId>) -> Seq<ChildEntry> {
    match c {
        Some(id) => match db.source_of(id) {
            Some(loc) => seq![(loc, id)],
            None => Seq::empty(),
        },
        None => Seq::empty(),
    }
}

/// The entries of a list of children, in order.
pub open spec fn located_entries(db: &DefDatabase, cs: Seq<Option<ChildId>>) -> Seq<ChildEntry>
    decreases cs.len(),
{
    if cs.len() == 0 {
        Seq::empty()
    } else {
        located_entries(db, cs.drop_last()) + located_entry(db, cs.last())
    }
}

pub open spec fn assoc_children(items: Seq<AssocItemId>) -> Seq<Option<ChildId>> {
    items.map_values(|a: AssocItemId| Some(assoc_child(a)))
}

pub open spec fn declared_children(scope: &ItemScope) -> Seq<Option<ChildId>> {
    scope.declarations@.map_values(|d: ModuleDefId| module_def_child(d))
}

pub open spec fn unnamed_const_children(scope: &ItemScope) -> Seq<Option<ChildId>> {
    scope.unnamed_consts@.map_values(|c| Some(ChildId::Const(c)))
}

pub open spec fn impl_children(scope: &ItemScope) -> Seq<Option<ChildId>> {
    scope.impls@.map_values(|i| Some(ChildId::Impl(i)))
}

pub open spec fn attr_macro_entries(scope: &ItemScope) -> Seq<ChildEntry> {
    scope.attr_macro_invocs@.map_values(
        |p: (SourceLoc, MacroCallId)| (p.0, ChildId::AttrMacro(p.1)),
    )
}

/// The entries of a module scope: its named declarations, then its unnamed
/// constants, its impl blocks and its attribute macro invocations.
pub open spec fn scope_entries(db: &DefDatabase, scope: &ItemScope) -> Seq<ChildEntry> {
    located_entries(db, declared_children(scope)) + located_entries(
        db,
        unnamed_const_children(scope),
    ) + located_entries(db, impl_children(scope)) + attr_macro_entries(scope)
}

/// The entries of the scopes of a body's blocks, all merged.
pub open spec fn blocks_entries(db: &DefDatabase, blocks: Seq<ItemScope>) -> Seq<ChildEntry>
    decreases blocks.len(),
{
    if blocks.len() == 0 {
        Seq::empty()
    } else {
        blocks_entries(db, blocks.drop_last()) + scope_entries(db, &blocks.last())
    }
}

pub open spec fn field_entry(parent: VariantId, i: int, src: FieldSource) -> ChildEntry {
    let id = FieldId { parent, local_id: i as usize };
    match src {
        FieldSource::Tuple(loc) => (loc, ChildId::TupleField(id)),
        FieldSource::Record(loc) => (loc, ChildId::RecordField(id)),
    }
}

/// The entries of the fields of `parent`, one per slot.
pub open spec fn field_entries(parent: VariantId, srcs: Seq<FieldSource>) -> Seq<ChildEntry> {
    Seq::new(srcs.len(), |i: int| field_entry(parent, i, srcs[i]))
}

/// The entries of the variants of `e`, one per slot.
pub open spec fn variant_entries(e: EnumId, locs: Seq<SourceLoc>) -> Seq<ChildEntry> {
    Seq::new(
        locs.len(),
        |i: int| (locs[i], ChildId::Variant(EnumVariantId { parent: e, local_id: i as usize })),
    )
}

proof fn lemma_located_entries_take(db: &DefDatabase, cs: Seq<Option<ChildId>>, i: int)
    requires
        0 <= i < cs.len(),
    ensures
        located_entries(db, cs.take(i + 1)) == located_entries(db, cs.take(i)) + located_entry(
            db,
            cs[i],
        ),
{
    assert(cs.take(i + 1).drop_last() =~= cs.take(i));
}

/// Indexes one child, if the store knows where it comes from.
fn add_located(db: &DefDatabase, res: &mut DynMap, id: ChildId)
    requires
        old(res).wf(),
    ensures
        final(res).wf(),
        final(res)@ == insert_all(old(res)@, located_entry(db, Some(id))),
{
    match db.source(id) {
        Some(loc) => {
            proof {
                lemma_insert_all_one(old(res)@, (loc, id));
            }
            res.insert(loc, id);
        },
        None => {
            assert(insert_all(old(res)@, Seq::empty()) == old(res)@);
        },
    }
}

fn add_assoc_items(db: &DefDatabase, res: &mut DynMap, items: &Vec<AssocItemId>)
    requires
        old(res).wf(),
    ensures
        final(res).wf(),
        final(res)@ == insert_all(old(res)@, located_entries(db, assoc_children(items@))),
{
    let ghost m0 = res@;
    let ghost cs = assoc_children(items@);
    let mut i: usize = 0;
    while i < items.len()
        invariant
            res.wf(),
            i <= items.len(),
            m0 == old(res)@,
            cs == assoc_children(items@),
            res@ == insert_all(m0, located_entries(db, cs.take(i as int))),
        decreases items.len() - i,
    {
        let id = match items[i] {
            AssocItemId::FunctionId(f) => ChildId::Function(f),
            AssocItemId::ConstId(c) => ChildId::Const(c),
            AssocItemId::TypeAliasId(t) => ChildId::TypeAlias(t),
        };
        proof {
            lemma_located_entries_take(db, cs, i as int);
            lemma_insert_all_concat(m0, located_entries(db, cs.take(i as int)), located_entry(db, cs[i as int]));
        }
        add_located(db, res, id);
        i = i + 1;
    }
    assert(cs.take(items.len() as int) =~= cs);
}

fn add_module_defs(db: &DefDatabase, res: &mut DynMap, scope: &ItemScope)
    requires
        old(res).wf(),
    ensures
        final(res).wf(),
        final(res)@ == insert_all(old(res)@, located_entries(db, declared_children(scope))),
{
    let ghost m0 = res@;
    let ghost cs = declared_children(scope);
    let mut i: usize = 0;
    while i < scope.declarations.len()
        invariant
            res.wf(),
            i <= scope.declarations.len(),
            m0 == old(res)@,
            cs == declared_children(scope),
            res@ == insert_all(m0, located_entries(db, cs.take(i as int))),
        decreases scope.declarations.len() - i,
    {
        let child = match scope.declarations[i] {
            ModuleDefId::FunctionId(f) => Some(ChildId::Function(f)),
            ModuleDefId::ConstId(c) => Some(ChildId::Const(c)),
            ModuleDefId::StaticId(s) => Some(ChildId::Static(s)),
            ModuleDefId::TypeAliasId(t) => Some(ChildId::TypeAlias(t)),
            ModuleDefId::TraitId(t) => Some(ChildId::Trait(t)),
            ModuleDefId::AdtId(AdtId::StructId(s)) => Some(ChildId::Struct(s)),
            ModuleDefId::AdtId(AdtId::UnionId(u)) => Some(ChildId::Union(u)),
            ModuleDefId::AdtId(AdtId::EnumId(e)) => Some(ChildId::Enum(e)),
            ModuleDefId::ModuleId(_) => None,
            ModuleDefId::EnumVariantId(_) => None,
        };
        proof {
            lemma_located_entries_take(db, cs, i as int);
            lemma_insert_all_concat(m0, located_entries(db, cs.take(i as int)), located_entry(db, cs[i as int]));
        }
        match child {
            Some(id) => add_located(db, res, id),
            None => {
                assert(located_entry(db, cs[i as int]) =~= Seq::empty());
                assert(insert_all(res@, Seq::empty()) == res@);
            },
        }
        i = i + 1;
    }
    assert(cs.take(scope.declarations.len() as int) =~= cs);
}

fn add_unnamed_consts(db: &DefDatabase, res: &mut DynMap, scope: &ItemScope)
    requires
        old(res).wf(),
    ensures
        final(res).wf(),
        final(res)@ == insert_all(old(res)@, located_entries(db, unnamed_const_children(scope))),
{
    let ghost m0 = res@;
    let ghost cs = unnamed_const_children(scope);
    let mut i: usize = 0;
    while i < scope.unnamed_consts.len()
        invariant
            res.wf(),
            i <= scope.unnamed_consts.len(),
            m0 == old(res)@,
            cs == unnamed_const_children(scope),
            res@ == insert_all(m0, located_entries(db, cs.take(i as int))),
        decreases scope.unnamed_consts.len() - i,
    {
        proof {
            lemma_located_entries_take(db, cs, i as int);
            lemma_insert_all_concat(m0, located_entries(db, cs.take(i as int)), located_entry(db, cs[i as int]));
        }
        add_located(db, res, ChildId::Const(scope.unnamed_consts[i]));
        i = i + 1;
    }
    assert(cs.take(scope.unnamed_consts.len() as int) =~= cs);
}

fn add_impls(db: &DefDatabase, res: &mut DynMap, scope: &ItemScope)
    requires
        old(res).wf(),
    ensures
        final(res).wf(),
        final(res)@ == insert_all(old(res)@, located_entries(db, impl_children(scope))),
{
    let ghost m0 = res@;
    let ghost cs = impl_children(scope);
    let mut i: usize = 0;
    while i < scope.impls.len()
        invariant
            res.wf(),
            i <= scope.impls.len(),
            m0 == old(res)@,
            cs == impl_children(scope),
            res@ == insert_all(m0, located_entries(db, cs.take(i as int))),
        decreases scope.impls.len() - i,
    {
        proof {
            lemma_located_entries_take(db, cs, i as int);
            lemma_insert_all_concat(m0, located_entries(db, cs.take(i as int)), located_entry(db, cs[i as int]));
        }
        add_located(db, res, ChildId::Impl(scope.impls[i]));
        i = i + 1;
    }
    assert(cs.take(scope.impls.len() as int) =~= cs);
}

fn add_attr_macros(res: &mut DynMap, scope: &ItemScope)
    requires
        old(res).wf(),
    ensures
        final(res).wf(),
        final(res)@ == insert_all(old(res)@, attr_macro_entries(scope)),
{
    let ghost m0 = res@;
    let ghost es = attr_macro_entries(scope);
    let mut i: usize = 0;
    while i < scope.attr_macro_invocs.len()
        invariant
            res.wf(),
            i <= scope.attr_macro_invocs.len(),
            m0 == old(res)@,
            es == attr_macro_entries(scope),
            res@ == insert_all(m0, es.take(i as int)),
        decreases scope.attr_macro_invocs.len() - i,
    {
        let (loc, call) = scope.attr_macro_invocs[i];
        proof {
            lemma_insert_all_take(m0, es, i as int);
        }
        res.insert(loc, ChildId::AttrMacro(call));
        i = i + 1;
    }
    assert(es.take(scope.attr_macro_invocs.len() as int) =~= es);
}

/// Row `i` of a table, or nothing when the table has no such row.
pub open spec fn row<T>(table: Seq<Vec<T>>, i: int) -> Seq<T> {
    if 0 <= i < table.len() {
        table[i]@
    } else {
        Seq::empty()
    }
}

fn add_fields(res: &mut DynMap, parent: VariantId, srcs: &Vec<FieldSource>)
    requires
        old(res).wf(),
    ensures
        final(res).wf(),
        final(res)@ == insert_all(old(res)@, field_entries(parent, srcs@)),
{
    let ghost m0 = res@;
    let ghost es = field_entries(parent, srcs@);
    let mut i: usize = 0;
    while i < srcs.len()
        invariant
            res.wf(),
            i <= srcs.len(),
            m0 == old(res)@,
            es == field_entries(parent, srcs@),
            res@ == insert_all(m0, es.take(i as int)),
        decreases srcs.len() - i,
    {
        let id = FieldId { parent, local_id: i };
        proof {
            lemma_insert_all_take(m0, es, i as int);
        }
        match srcs[i] {
            FieldSource::Tuple(loc) => res.insert(loc, ChildId::TupleField(id)),
            FieldSource::Record(loc) => res.insert(loc, ChildId::RecordField(id)),
        }
        i = i + 1;
    }
    assert(es.take(srcs.len() as int) =~= es);
}

fn add_blocks(db: &DefDatabase, res: &mut DynMap, blocks: &Vec<ItemScope>)
    requires
        old(res).wf(),
    ensures
        final(res).wf(),
        final(res)@ == insert_all(old(res)@, blocks_entries(db, blocks@)),
{
    let ghost m0 = res@;
    let mut i: usize = 0;
    while i < blocks.len()
        invariant
            res.wf(),
            i <= blocks.len(),
            m0 == old(res)@,
            res@ == insert_all(m0, blocks_entries(db, blocks@.take(i as int))),
        decreases blocks.len() - i,
    {
        proof {
            assert(blocks@.take(i + 1).drop_last() =~= blocks@.take(i as int));
            lemma_insert_all_concat(
                m0,
                blocks_entries(db, blocks@.take(i as int)),
                scope_entries(db, &blocks@[i as int]),
            );
        }
        blocks[i].child_by_source_to(db, res);
        i = i + 1;
    }
    assert(blocks@.take(blocks.len() as int) =~= blocks@);
}

/// Containers whose children can be looked up by their syntax.
pub trait ChildBySource {
    /// The children of this container that have a location, in the order in
    /// which they are indexed.
    spec fn child_entries(&self, db: &DefDatabase) -> Seq<ChildEntry>;

    /// The reverse index of this container's children.
    fn child_by_source(&self, db: &DefDatabase) -> (r: DynMap)
        ensures
            r.wf(),
            r@ == insert_all(Map::empty(), self.child_entries(db)),
    {
        let mut res = DynMap::new();
        self.child_by_source_to(db, &mut res);
        res
    }

    /// Adds the children of this container to `res`.
    fn child_by_source_to(&self, db: &DefDatabase, res: &mut DynMap)
        requires
            old(res).wf(),
        ensures
            final(res).wf(),
            final(res)@ == insert_all(old(res)@, self.child_entries(db)),
    ;
}

impl ChildBySource for TraitId {
    open spec fn child_entries(&self, db: &DefDatabase) -> Seq<ChildEntry> {
        located_entries(db, assoc_children(row(db.trait_items@, self.0 as int)))
    }

    fn child_by_source_to(&self, db: &DefDatabase, res: &mut DynMap) {
        if (self.0 as usize) < db.trait_items.len() {
            add_assoc_items(db, res, &db.trait_items[self.0 as usize]);
        } else {
            assert(located_entries(db, assoc_children(Seq::empty())) =~= Seq::empty());
        }
    }
}

impl ChildBySource for ImplId {
    open spec fn child_entries(&self, db: &DefDatabase) -> Seq<ChildEntry> {
        located_entries(db, assoc_children(row(db.impl_items@, self.0 as int)))
    }

    fn child_by_source_to(&self, db: &DefDatabase, res: &mut DynMap) {
        if (self.0 as usize) < db.impl_items.len() {
            add_assoc_items(db, res, &db.impl_items[self.0 as usize]);
        } else {
            assert(located_entries(db, assoc_children(Seq::empty())) =~= Seq::empty());
        }
    }
}

impl ChildBySource for ItemScope {
    open spec fn child_entries(&self, db: &DefDatabase) -> Seq<ChildEntry> {
        scope_entries(db, self)
    }

    fn child_by_source_to(&self, db: &DefDatabase, res: &mut DynMap) {
        let ghost m0 = res@;
        let ghost a = located_entries(db, declared_children(self));
        let ghost b = located_entries(db, unnamed_const_children(self));
        let ghost c = located_entries(db, impl_children(self));
        let ghost d = attr_macro_entries(self);
        add_module_defs(db, res, self);
        add_unnamed_consts(db, res, self);
        add_impls(db, res, self);
        add_attr_macros(res, self);
        proof {
            lemma_insert_all_concat(m0, a, b);
            lemma_insert_all_concat(m0, a + b, c);
            lemma_insert_all_concat(m0, a + b + c, d);
        }
    }
}

impl ChildBySource for ModuleId {
    open spec fn child_entries(&self, db: &DefDatabase) -> Seq<ChildEntry> {
        if (self.0 as int) < db.module_scopes@.len() {
            scope_entries(db, &db.module_scopes@[self.0 as int])
        } else {
            Seq::empty()
        }
    }

    fn child_by_source_to(&self, db: &DefDatabase, res: &mut DynMap) {
        if (self.0 as usize) < db.module_scopes.len() {
            db.module_scopes[self.0 as usize].child_by_source_to(db, res);
        }
    }
}

/// The field sources of a field container.
pub open spec fn fields_of(db: &DefDatabase, v: VariantId) -> Seq<FieldSource> {
    match v {
        VariantId::EnumVariantId(ev) => {
            let variants = row(db.variant_field_sources@, ev.parent.0 as int);
            if ev.local_id < variants.len() {
                variants[ev.local_id as int]@
            } else {
                Seq::empty()
            }
        },
        VariantId::StructId(s) => row(db.struct_field_sources@, s.0 as int),
        VariantId::UnionId(u) => row(db.union_field_sources@, u.0 as int),
    }
}

impl ChildBySource for VariantId {
    open spec fn child_entries(&self, db: &DefDatabase) -> Seq<ChildEntry> {
        field_entries(*self, fields_of(db, *self))
    }

    fn child_by_source_to(&self, db: &DefDatabase, res: &mut DynMap) {
        let table = match *self {
            VariantId::EnumVariantId(ev) => {
                if (ev.parent.0 as usize) < db.variant_field_sources.len() {
                    let variants = &db.variant_field_sources[ev.parent.0 as usize];
                    if ev.local_id < variants.len() {
                        Some(&variants[ev.local_id])
                    } else {
                        None
                    }
                } else {
                    None
                }
            },
            VariantId::StructId(s) => {
                if (s.0 as usize) < db.struct_field_sources.len() {
                    Some(&db.struct_field_sources[s.0 as usize])
                } else {
                    None
                }
            },
            VariantId::UnionId(u) => {
                if (u.0 as usize) < db.union_field_sources.len() {
                    Some(&db.union_field_sources[u.0 as usize])
                } else {
                    None
                }
            },
        };
        match table {
            Some(srcs) => {
                assert(srcs@ == fields_of(db, *self));
                add_fields(res, *self, srcs);
            },
            None => {
                assert(field_entries(*self, fields_of(db, *self)) =~= Seq::empty());
            },
        }
    }
}

impl ChildBySource for EnumId {
    open spec fn child_entries(&self, db: &DefDatabase) -> Seq<ChildEntry> {
        variant_entries(*self, row(db.enum_variant_sources@, self.0 as int))
    }

    fn child_by_source_to(&self, db: &DefDatabase, res: &mut DynMap) {
        if (self.0 as usize) < db.enum_variant_sources.len() {
            let locs = &db.enum_variant_sources[self.0 as usize];
            let ghost m0 = res@;
            let ghost es = variant_entries(*self, locs@);
            let mut i: usize = 0;
            while i < locs.len()
                invariant
                    res.wf(),
                    i <= locs.len(),
                    m0 == old(res)@,
                    es == variant_entries(*self, locs@),
                    res@ == insert_all(m0, es.take(i as int)),
                decreases locs.len() - i,
            {
                let id = EnumVariantId { parent: *self, local_id: i };
                proof {
                    lemma_insert_all_take(m0, es, i as int);
                }
                res.insert(locs[i], ChildId::Variant(id));
                i = i + 1;
            }
            assert(es.take(locs.len() as int) =~= es);
        } else {
            assert(variant_entries(*self, Seq::empty()) =~= Seq::empty());
        }
    }
}

/// The block scopes of a body.
pub open spec fn blocks_of(db: &DefDatabase, b: DefWithBodyId) -> Seq<ItemScope> {
    match b {
        DefWithBodyId::FunctionId(f) => row(db.function_blocks@, f.0 as int),
        DefWithBodyId::StaticId(s) => row(db.static_blocks@, s.0 as int),
        DefWithBodyId::ConstId(c) => row(db.const_blocks@, c.0 as int),
    }
}

impl ChildBySource for DefWithBodyId {
    /// All block expressions are merged into one index: the items they declare
    /// all belong to the body that holds them.
    open spec fn child_entries(&self, db: &DefDatabase) -> Seq<ChildEntry> {
        blocks_entries(db, blocks_of(db, *self))
    }

    fn child_by_source_to(&self, db: &DefDatabase, res: &mut DynMap) {
        let (i, table) = match *self {
            DefWithBodyId::FunctionId(f) => (f.0 as usize, &db.function_blocks),
            DefWithBodyId::StaticId(s) => (s.0 as usize, &db.static_blocks),
            DefWithBodyId::ConstId(c) => (c.0 as usize, &db.const_blocks),
        };
        if i < table.len() {
            add_blocks(db, res, &table[i]);
        }
    }
}

/// Any container of indexable children.
#[derive(Clone, Copy, Debug, PartialEq, Eq, Structural, Hash)]
pub enum ContainerId {
    Trait(TraitId),
    Impl(ImplId),
    Module(ModuleId),
    Enum(EnumId),
    Variant(VariantId),
    Body(DefWithBodyId),
}

impl ChildBySource for ContainerId {
    open spec fn child_entries(&self, db: &DefDatabase) -> Seq<ChildEntry> {
        match *self {
            ContainerId::Trait(t) => t.child_entries(db),
            ContainerId::Impl(i) => i.child_entries(db),
            ContainerId::Module(m) => m.child_entries(db),
            ContainerId::Enum(e) => e.child_entries(db),
            ContainerId::Variant(v) => v.child_entries(db),
            ContainerId::Body(b) => b.child_entries(db),
        }
    }

    fn child_by_source_to(&self, db: &DefDatabase, res: &mut DynMap) {
        match *self {
            ContainerId::Trait(t) => t.child_by_source_to(db, res),
            ContainerId::Impl(i) => i.child_by_source_to(db, res),
            ContainerId::Module(m) => m.child_by_source_to(db, res),
            ContainerId::Enum(e) => e.child_by_source_to(db, res),
            ContainerId::Variant(v) => v.child_by_source_to(db, res),
            ContainerId::Body(b) => b.child_by_source_to(db, res),
        }
    }
}

/// The index of a container that starts empty.
pub open spec fn index_of(c: ContainerId, db: &DefDatabase) -> Map<ChildKey, ChildId> {
    insert_all(Map::empty(), c.child_entries(db))
}

/// Every child of a container is found in the index of the container, in the
/// bucket of its kind at its location; a lookup there gives the child back
/// unless a later child has the same location in the same bucket, and always
/// does when no two children share one.
pub proof fn lemma_child_round_trip(c: ContainerId, db: &DefDatabase, i: int)
    requires
        0 <= i < c.child_entries(db).len(),
    ensures
        index_of(c, db).contains_key((c.child_entries(db)[i].1.kind_of(), c.child_entries(db)[i].0)),
        (forall|j: int|
            i < j < c.child_entries(db).len() ==> key_of(#[trigger] c.child_entries(db)[j])
                != key_of(c.child_entries(db)[i])) ==> index_of(c, db)[(
            c.child_entries(db)[i].1.kind_of(),
            c.child_entries(db)[i].0,
        )] == c.child_entries(db)[i].1,
        keys_distinct(c.child_entries(db)) ==> index_of(c, db)[(
            c.child_entries(db)[i].1.kind_of(),
            c.child_entries(db)[i].0,
        )] == c.child_entries(db)[i].1,
{
    lemma_insert_all_entry(Map::empty(), c.child_entries(db), i);
}

/// Computing the index of one container twice over one snapshot gives the
/// same content.
pub proof fn lemma_index_deterministic(c: ContainerId, db: &DefDatabase, r1: DynMap, r2: DynMap)
    requires
        r1@ == insert_all(Map::empty(), c.child_entries(db)),
        r2@ == insert_all(Map::empty(), c.child_entries(db)),
    ensures
        r1@ == r2@,
{
}

/// When no two children of a container share a location in one bucket, the
/// order in which they are declared does not change its index: any listing
/// of the same children gives the same index.
pub proof fn lemma_index_order_free(c: ContainerId, db: &DefDatabase, reordered: Seq<ChildEntry>)
    requires
        keys_distinct(c.child_entries(db)),
        keys_distinct(reordered),
        forall|e: ChildEntry| c.child_entries(db).contains(e) <==> reordered.contains(e),
    ensures
        insert_all(Map::empty(), reordered) == index_of(c, db),
{
    lemma_insert_all_order_free(reordered, c.child_entries(db));
}

/// An enum with `n` variant slots, at `n` distinct locations, is indexed as
/// exactly `n` variants, slot `i` as `(e, i)` at the location of that slot.
pub proof fn lemma_enum_variants(e: EnumId, db: &DefDatabase)
    requires
        forall|i: int, j: int|
            0 <= i < j < row(db.enum_variant_sources@, e.0 as int).len() ==> row(
                db.enum_variant_sources@,
                e.0 as int,
            )[i] != row(db.enum_variant_sources@, e.0 as int)[j],
    ensures
        index_of(ContainerId::Enum(e), db).dom().finite(),
        index_of(ContainerId::Enum(e), db).dom().len() == row(db.enum_variant_sources@, e.0 as int).len(),
        forall|k: ChildKey| #[trigger]
            index_of(ContainerId::Enum(e), db).contains_key(k) ==> k.0 == ChildKind::Variant,
        forall|i: int|
            0 <= i < row(db.enum_variant_sources@, e.0 as int).len() ==> index_of(
                ContainerId::Enum(e),
                db,
            )[(ChildKind::Variant, #[trigger] row(db.enum_variant_sources@, e.0 as int)[i])]
                == ChildId::Variant(EnumVariantId { parent: e, local_id: i as usize }),
{
    let locs = row(db.enum_variant_sources@, e.0 as int);
    let s = ContainerId::Enum(e).child_entries(db);
    assert(s == variant_entries(e, locs));
    assert(keys_distinct(s));
    lemma_insert_all_len(s);
    assert forall|k: ChildKey| #[trigger]
        index_of(ContainerId::Enum(e), db).contains_key(k) implies k.0 == ChildKind::Variant by {
        lemma_insert_all_key(Map::empty(), s, k);
    }
    assert forall|i: int| 0 <= i < locs.len() implies index_of(ContainerId::Enum(e), db)[(
        ChildKind::Variant,
        #[trigger] locs[i],
    )] == ChildId::Variant(EnumVariantId { parent: e, local_id: i as usize }) by {
        lemma_insert_all_entry(Map::empty(), s, i);
    }
}

/// No field is ever indexed both as a positional field and as a named field.
pub proof fn lemma_field_in_one_bucket(v: VariantId, db: &DefDatabase, f: FieldId, k1: ChildKey, k2: ChildKey)
    requires
        fields_of(db, v).len() <= usize::MAX,
    ensures
        !(index_of(ContainerId::Variant(v), db).contains_key(k1) && index_of(
            ContainerId::Variant(v),
            db,
        )[k1] == ChildId::TupleField(f) && index_of(ContainerId::Variant(v), db).contains_key(k2)
            && index_of(ContainerId::Variant(v), db)[k2] == ChildId::RecordField(f)),
{
    let s = ContainerId::Variant(v).child_entries(db);
    let m = index_of(ContainerId::Variant(v), db);
    if m.contains_key(k1) && m[k1] == ChildId::TupleField(f) && m.contains_key(k2) && m[k2]
        == ChildId::RecordField(f) {
        lemma_insert_all_value(Map::empty(), s, k1);
        lemma_insert_all_value(Map::empty(), s, k2);
        let i = choose|i: int| 0 <= i < s.len() && key_of(#[trigger] s[i]) == k1 && s[i].1 == m[k1];
        let j = choose|j: int| 0 <= j < s.len() && key_of(#[trigger] s[j]) == k2 && s[j].1 == m[k2];
        assert(f.local_id == i as usize && f.local_id == j as usize);
        assert(i == j);
    }
}

/// Each field of a field container is found in the index, in the bucket that
/// its shape selects.
pub proof fn lemma_field_indexed(v: VariantId, db: &DefDatabase, i: int)
    requires
        0 <= i < fields_of(db, v).len(),
    ensures
        match fields_of(db, v)[i] {
            FieldSource::Tuple(loc) => index_of(ContainerId::Variant(v), db).contains_key(
                (ChildKind::TupleField, loc),
            ),
            FieldSource::Record(loc) => index_of(ContainerId::Variant(v), db).contains_key(
                (ChildKind::RecordField, loc),
            ),
        },
{
    lemma_insert_all_entry(Map::empty(), ContainerId::Variant(v).child_entries(db), i);
}

/// A body without block expressions adds nothing to an index.
pub proof fn lemma_body_without_blocks(b: DefWithBodyId, db: &DefDatabase, m: Map<ChildKey, ChildId>)
    requires
        blocks_of(db, b).len() == 0,
    ensures
        insert_all(m, ContainerId::Body(b).child_entries(db)) == m,
{
}

/// The entries of a block scope that declares one function and nothing else.
proof fn lemma_single_function_scope(db: &DefDatabase, scope: &ItemScope, f: FunctionId, loc: SourceLoc)
    requires
        scope.declarations@ == seq![ModuleDefId::FunctionId(f)],
        scope.unnamed_consts@.len() == 0,
        scope.impls@.len() == 0,
        scope.attr_macro_invocs@.len() == 0,
        db.source_of(ChildId::Function(f)) == Some(loc),
    ensures
        scope_entries(db, scope) == seq![(loc, ChildId::Function(f))],
{
    let d = declared_children(scope);
    assert(d.len() == 1 && d[0] == Some(ChildId::Function(f)));
    assert(d.drop_last().len() == 0);
    assert(located_entries(db, d.drop_last()) == Seq::<ChildEntry>::empty());
    assert(located_entry(db, d.last()) == seq![(loc, ChildId::Function(f))]);
    assert(located_entries(db, d) =~= seq![(loc, ChildId::Function(f))]);
    assert(located_entries(db, unnamed_const_children(scope)) =~= Seq::empty());
    assert(located_entries(db, impl_children(scope)) =~= Seq::empty());
    assert(attr_macro_entries(scope) =~= Seq::empty());
    assert(scope_entries(db, scope) =~= seq![(loc, ChildId::Function(f))]);
}

/// A body with two block expressions that each declare one function, at two
/// locations, is indexed with both functions, whichever block each came from.
pub proof fn lemma_two_blocks_merged(
    b: DefWithBodyId,
    db: &DefDatabase,
    f1: FunctionId,
    l1: SourceLoc,
    f2: FunctionId,
    l2: SourceLoc,
)
    requires
        blocks_of(db, b).len() == 2,
        blocks_of(db, b)[0].declarations@ == seq![ModuleDefId::FunctionId(f1)],
        blocks_of(db, b)[1].declarations@ == seq![ModuleDefId::FunctionId(f2)],
        forall|k: int|
            0 <= k < 2 ==> (#[trigger] blocks_of(db, b)[k]).unnamed_consts@.len() == 0
                && blocks_of(db, b)[k].impls@.len() == 0 && blocks_of(db, b)[k].attr_macro_invocs@.len()
                == 0,
        db.source_of(ChildId::Function(f1)) == Some(l1),
        db.source_of(ChildId::Function(f2)) == Some(l2),
        l1 != l2,
    ensures
        index_of(ContainerId::Body(b), db).dom().len() == 2,
        index_of(ContainerId::Body(b), db).contains_key((ChildKind::Function, l1)),
        index_of(ContainerId::Body(b), db)[(ChildKind::Function, l1)] == ChildId::Function(f1),
        index_of(ContainerId::Body(b), db).contains_key((ChildKind::Function, l2)),
        index_of(ContainerId::Body(b), db)[(ChildKind::Function, l2)] == ChildId::Function(f2),
{
    let blocks = blocks_of(db, b);
    let b0 = blocks[0];
    let b1 = blocks[1];
    lemma_single_function_scope(db, &b0, f1, l1);
    lemma_single_function_scope(db, &b1, f2, l2);
    let e1 = (l1, ChildId::Function(f1));
    let e2 = (l2, ChildId::Function(f2));
    assert(blocks.drop_last().drop_last().len() == 0);
    assert(blocks.drop_last().last() == b0);
    assert(blocks_entries(db, blocks.drop_last().drop_last()) == Seq::<ChildEntry>::empty());
    assert(blocks_entries(db, blocks.drop_last()) =~= seq![e1]);
    let s = blocks_entries(db, blocks);
    assert(s =~= seq![e1, e2]);
    assert(s == ContainerId::Body(b).child_entries(db));
    assert(keys_distinct(s));
    lemma_insert_all_len(s);
    lemma_insert_all_entry(Map::empty(), s, 0);
    lemma_insert_all_entry(Map::empty(), s, 1);
}

proof fn lemma_located_entries_has(db: &DefDatabase, cs: Seq<Option<ChildId>>, i: int, id: ChildId, loc: SourceLoc)
    requires
        0 <= i < cs.len(),
        cs[i] == Some(id),
        db.source_of(id) == Some(loc),
    ensures
        located_entries(db, cs).contains((loc, id)),
    decreases cs.len(),
{
    let p = cs.drop_last();
    let a = located_entries(db, p);
    let whole = located_entries(db, cs);
    if i == cs.len() - 1 {
        assert(whole == a + seq![(loc, id)]);
        assert(whole[a.len() as int] == (loc, id));
    } else {
        assert(p[i] == cs[i]);
        lemma_located_entries_has(db, p, i, id, loc);
        let j = choose|j: int| 0 <= j < a.len() && a[j] == (loc, id);
        assert(whole[j] == a[j]);
    }
}

proof fn lemma_contained_entry_indexed(s: Seq<ChildEntry>, e: ChildEntry)
    requires
        s.contains(e),
    ensures
        insert_all(Map::empty(), s).contains_key(key_of(e)),
{
    let i = choose|i: int| 0 <= i < s.len() && s[i] == e;
    lemma_insert_all_entry(Map::empty(), s, i);
}

proof fn lemma_scope_declaration_has(db: &DefDatabase, scope: &ItemScope, i: int, id: ChildId, loc: SourceLoc)
    requires
        0 <= i < scope.declarations@.len(),
        module_def_child(scope.declarations@[i]) == Some(id),
        db.source_of(id) == Some(loc),
    ensures
        scope_entries(db, scope).contains((loc, id)),
{
    let a = located_entries(db, declared_children(scope));
    let rest = located_entries(db, unnamed_const_children(scope)) + located_entries(
        db,
        impl_children(scope),
    ) + attr_macro_entries(scope);
    lemma_located_entries_has(db, declared_children(scope), i, id, loc);
    let s = scope_entries(db, scope);
    assert(s =~= a + rest);
    let j = choose|j: int| 0 <= j < a.len() && a[j] == (loc, id);
    assert(s[j] == a[j]);
}

proof fn lemma_blocks_entries_has(db: &DefDatabase, blocks: Seq<ItemScope>, k: int, e: ChildEntry)
    requires
        0 <= k < blocks.len(),
        scope_entries(db, &blocks[k]).contains(e),
    ensures
        blocks_entries(db, blocks).contains(e),
    decreases blocks.len(),
{
    let p = blocks.drop_last();
    let a = blocks_entries(db, p);
    let whole = blocks_entries(db, blocks);
    if k == blocks.len() - 1 {
        let s = scope_entries(db, &blocks.last());
        let j = choose|j: int| 0 <= j < s.len() && s[j] == e;
        assert(whole == a + s);
        assert(whole[a.len() + j] == s[j]);
    } else {
        assert(p[k] == blocks[k]);
        lemma_blocks_entries_has(db, p, k, e);
        let j = choose|j: int| 0 <= j < a.len() && a[j] == e;
        assert(whole[j] == a[j]);
    }
}

/// Every item declared by name in a module, that has a location, is in the
/// index of the module, in the bucket of its kind at that location.
pub proof fn lemma_module_declaration_indexed(m: ModuleId, db: &DefDatabase, i: int, id: ChildId, loc: SourceLoc)
    requires
        (m.0 as int) < db.module_scopes@.len(),
        0 <= i < db.module_scopes@[m.0 as int].declarations@.len(),
        module_def_child(db.module_scopes@[m.0 as int].declarations@[i]) == Some(id),
        db.source_of(id) == Some(loc),
    ensures
        index_of(ContainerId::Module(m), db).contains_key((id.kind_of(), loc)),
{
    lemma_scope_declaration_has(db, &db.module_scopes@[m.0 as int], i, id, loc);
    lemma_contained_entry_indexed(ContainerId::Module(m).child_entries(db), (loc, id));
}

/// Every item declared by name in any block of a body, that has a location,
/// is in the index of the body, in the bucket of its kind at that location.
pub proof fn lemma_block_declaration_indexed(
    b: DefWithBodyId,
    db: &DefDatabase,
    k: int,
    i: int,
    id: ChildId,
    loc: SourceLoc,
)
    requires
        0 <= k < blocks_of(db, b).len(),
        0 <= i < blocks_of(db, b)[k].declarations@.len(),
        module_def_child(blocks_of(db, b)[k].declarations@[i]) == Some(id),
        db.source_of(id) == Some(loc),
    ensures
        index_of(ContainerId::Body(b), db).contains_key((id.kind_of(), loc)),
{
    lemma_scope_declaration_has(db, &blocks_of(db, b)[k], i, id, loc);
    lemma_blocks_entries_has(db, blocks_of(db, b), k, (loc, id));
    lemma_contained_entry_indexed(ContainerId::Body(b).child_entries(db), (loc, id));
}

/// Every associated item of a trait, that has a location, is in the index of
/// the trait, in the bucket of its kind at that location.
pub proof fn lemma_trait_item_indexed(t: TraitId, db: &DefDatabase, i: int, loc: SourceLoc)
    requires
        0 <= i < row(db.trait_items@, t.0 as int).len(),
        db.source_of(assoc_child(row(db.trait_items@, t.0 as int)[i])) == Some(loc),
    ensures
        index_of(ContainerId::Trait(t), db).contains_key(
            (assoc_child(row(db.trait_items@, t.0 as int)[i]).kind_of(), loc),
        ),
{
    let items = row(db.trait_items@, t.0 as int);
    lemma_located_entries_has(db, assoc_children(items), i, assoc_child(items[i]), loc);
    lemma_contained_entry_indexed(ContainerId::Trait(t).child_entries(db), (loc, assoc_child(items[i])));
}

/// Every associated item of an impl block, that has a location, is in the
/// index of the impl block, in the bucket of its kind at that location.
pub proof fn lemma_impl_item_indexed(im: ImplId, db: &DefDatabase, i: int, loc: SourceLoc)
    requires
        0 <= i < row(db.impl_items@, im.0 as int).len(),
        db.source_of(assoc_child(row(db.impl_items@, im.0 as int)[i])) == Some(loc),
    ensures
        index_of(ContainerId::Impl(im), db).contains_key(
            (assoc_child(row(db.impl_items@, im.0 as int)[i]).kind_of(), loc),
        ),
{
    let items = row(db.impl_items@, im.0 as int);
    lemma_located_entries_has(db, assoc_children(items), i, assoc_child(items[i]), loc);
    lemma_contained_entry_indexed(ContainerId::Impl(im).child_entries(db), (loc, assoc_child(items[i])));
}

} // verus!
