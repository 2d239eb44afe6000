use hir_index::child_by_source::{ChildBySource, ContainerId};
use hir_index::dyn_map::{ChildId, ChildKind, DynMap};
use hir_index::ids::{
    AdtId, AssocItemId, ConstId, DefWithBodyId, EnumId, EnumVariantId, FieldId, FunctionId,
    ImplId, MacroCallId, ModuleDefId, ModuleId, SourceLoc, StaticId, StructId, TraitId,
    TypeAliasId, UnionId, VariantId,
};
use hir_index::store::{DefDatabase, FieldSource, ItemScope};

fn loc(tree: u32, node: u32) -> SourceLoc {
    SourceLoc { tree, node }
}

fn empty_scope() -> ItemScope {
    ItemScope {
        declarations: vec![],
        unnamed_consts: vec![],
        impls: vec![],
        attr_macro_invocs: vec![],
    }
}

fn empty_db() -> DefDatabase {
    DefDatabase {
        function_sources: vec![],
        const_sources: vec![],
        static_sources: vec![],
        type_alias_sources: vec![],
        trait_sources: vec![],
        struct_sources: vec![],
        union_sources: vec![],
        enum_sources: vec![],
        impl_sources: vec![],
        trait_items: vec![],
        impl_items: vec![],
        module_scopes: vec![],
        enum_variant_sources: vec![],
        struct_field_sources: vec![],
        union_field_sources: vec![],
        variant_field_sources: vec![],
        function_blocks: vec![],
        const_blocks: vec![],
        static_blocks: vec![],
    }
}

#[test]
fn trait_items_are_indexed_by_kind() {
    let mut db = empty_db();
    db.function_sources = vec![Some(loc(0, 10))];
    db.const_sources = vec![Some(loc(0, 11))];
    db.type_alias_sources = vec![Some(loc(0, 12))];
    db.trait_items = vec![vec![
        AssocItemId::FunctionId(FunctionId(0)),
        AssocItemId::ConstId(ConstId(0)),
        AssocItemId::TypeAliasId(TypeAliasId(0)),
    ]];
    let map = TraitId(0).child_by_source(&db);
    assert_eq!(map.len(), 3);
    assert_eq!(map.get(ChildKind::Function, loc(0, 10)), Some(ChildId::Function(FunctionId(0))));
    assert_eq!(map.get(ChildKind::Const, loc(0, 11)), Some(ChildId::Const(ConstId(0))));
    assert_eq!(
        map.get(ChildKind::TypeAlias, loc(0, 12)),
        Some(ChildId::TypeAlias(TypeAliasId(0)))
    );
    // the bucket matters: a function's location is not a constant's
    assert_eq!(map.get(ChildKind::Const, loc(0, 10)), None);
}

#[test]
fn impl_item_without_location_is_omitted() {
    let mut db = empty_db();
    db.function_sources = vec![Some(loc(1, 1)), None];
    db.impl_items = vec![vec![
        AssocItemId::FunctionId(FunctionId(0)),
        AssocItemId::FunctionId(FunctionId(1)),
        AssocItemId::ConstId(ConstId(7)),
    ]];
    let map = ImplId(0).child_by_source(&db);
    assert_eq!(map.len(), 1);
    assert_eq!(map.get(ChildKind::Function, loc(1, 1)), Some(ChildId::Function(FunctionId(0))));
}

#[test]
fn unknown_container_has_empty_index() {
    let db = empty_db();
    assert_eq!(TraitId(3).child_by_source(&db).len(), 0);
    assert_eq!(ImplId(3).child_by_source(&db).len(), 0);
    assert_eq!(ModuleId(3).child_by_source(&db).len(), 0);
    assert_eq!(EnumId(3).child_by_source(&db).len(), 0);
    assert_eq!(VariantId::StructId(StructId(3)).child_by_source(&db).len(), 0);
    assert_eq!(DefWithBodyId::StaticId(StaticId(3)).child_by_source(&db).len(), 0);
}

#[test]
fn duplicate_insertion_keeps_last_value() {
    let mut map = DynMap::new();
    map.insert(loc(2, 5), ChildId::Function(FunctionId(1)));
    map.insert(loc(2, 5), ChildId::Function(FunctionId(2)));
    map.insert(loc(2, 5), ChildId::Function(FunctionId(3)));
    assert_eq!(map.len(), 1);
    assert_eq!(map.get(ChildKind::Function, loc(2, 5)), Some(ChildId::Function(FunctionId(3))));
    // same location, other bucket: a separate entry
    map.insert(loc(2, 5), ChildId::Static(StaticId(0)));
    assert_eq!(map.len(), 2);
    assert_eq!(map.get(ChildKind::Function, loc(2, 5)), Some(ChildId::Function(FunctionId(3))));
}

#[test]
fn enum_variants_by_slot() {
    let mut db = empty_db();
    db.enum_variant_sources = vec![vec![], vec![loc(3, 1), loc(3, 2), loc(3, 3)]];
    let e = EnumId(1);
    let map = e.child_by_source(&db);
    assert_eq!(map.len(), 3);
    for i in 0..3usize {
        assert_eq!(
            map.get(ChildKind::Variant, loc(3, i as u32 + 1)),
            Some(ChildId::Variant(EnumVariantId { parent: e, local_id: i }))
        );
    }
    assert_eq!(EnumId(0).child_by_source(&db).len(), 0);
}

#[test]
fn mixed_fields_go_to_one_bucket_each() {
    let mut db = empty_db();
    db.struct_field_sources =
        vec![vec![FieldSource::Tuple(loc(4, 1)), FieldSource::Record(loc(4, 2))]];
    let parent = VariantId::StructId(StructId(0));
    let map = parent.child_by_source(&db);
    assert_eq!(map.len(), 2);
    let f0 = FieldId { parent, local_id: 0 };
    let f1 = FieldId { parent, local_id: 1 };
    assert_eq!(map.get(ChildKind::TupleField, loc(4, 1)), Some(ChildId::TupleField(f0)));
    assert_eq!(map.get(ChildKind::RecordField, loc(4, 1)), None);
    assert_eq!(map.get(ChildKind::RecordField, loc(4, 2)), Some(ChildId::RecordField(f1)));
    assert_eq!(map.get(ChildKind::TupleField, loc(4, 2)), None);
}

#[test]
fn union_and_enum_variant_fields() {
    let mut db = empty_db();
    db.union_field_sources = vec![vec![FieldSource::Record(loc(5, 1))]];
    db.variant_field_sources =
        vec![vec![vec![], vec![FieldSource::Tuple(loc(5, 2)), FieldSource::Tuple(loc(5, 3))]]];
    let u = VariantId::UnionId(UnionId(0));
    let map = u.child_by_source(&db);
    assert_eq!(
        map.get(ChildKind::RecordField, loc(5, 1)),
        Some(ChildId::RecordField(FieldId { parent: u, local_id: 0 }))
    );
    let v = VariantId::EnumVariantId(EnumVariantId { parent: EnumId(0), local_id: 1 });
    let map = v.child_by_source(&db);
    assert_eq!(map.len(), 2);
    assert_eq!(
        map.get(ChildKind::TupleField, loc(5, 3)),
        Some(ChildId::TupleField(FieldId { parent: v, local_id: 1 }))
    );
    let v0 = VariantId::EnumVariantId(EnumVariantId { parent: EnumId(0), local_id: 0 });
    assert_eq!(v0.child_by_source(&db).len(), 0);
    let v9 = VariantId::EnumVariantId(EnumVariantId { parent: EnumId(0), local_id: 9 });
    assert_eq!(v9.child_by_source(&db).len(), 0);
}

fn scope_db() -> DefDatabase {
    let mut db = empty_db();
    db.function_sources = vec![Some(loc(6, 1))];
    db.const_sources = vec![Some(loc(6, 2)), Some(loc(6, 3))];
    db.static_sources = vec![Some(loc(6, 4))];
    db.type_alias_sources = vec![Some(loc(6, 5))];
    db.trait_sources = vec![Some(loc(6, 6))];
    db.struct_sources = vec![Some(loc(6, 7))];
    db.union_sources = vec![Some(loc(6, 8))];
    db.enum_sources = vec![Some(loc(6, 9))];
    db.impl_sources = vec![Some(loc(6, 10))];
    let mut scope = empty_scope();
    scope.declarations = vec![
        ModuleDefId::FunctionId(FunctionId(0)),
        ModuleDefId::ConstId(ConstId(0)),
        ModuleDefId::StaticId(StaticId(0)),
        ModuleDefId::TypeAliasId(TypeAliasId(0)),
        ModuleDefId::TraitId(TraitId(0)),
        ModuleDefId::AdtId(AdtId::StructId(StructId(0))),
        ModuleDefId::AdtId(AdtId::UnionId(UnionId(0))),
        ModuleDefId::AdtId(AdtId::EnumId(EnumId(0))),
        ModuleDefId::ModuleId(ModuleId(1)),
        ModuleDefId::EnumVariantId(EnumVariantId { parent: EnumId(0), local_id: 0 }),
    ];
    scope.unnamed_consts = vec![ConstId(1)];
    scope.impls = vec![ImplId(0)];
    scope.attr_macro_invocs = vec![(loc(6, 11), MacroCallId(42))];
    db.module_scopes = vec![scope];
    db
}

#[test]
fn module_scope_indexes_all_four_collections() {
    let db = scope_db();
    let map = ModuleId(0).child_by_source(&db);
    assert_eq!(map.len(), 11);
    assert_eq!(map.get(ChildKind::Function, loc(6, 1)), Some(ChildId::Function(FunctionId(0))));
    assert_eq!(map.get(ChildKind::Const, loc(6, 2)), Some(ChildId::Const(ConstId(0))));
    assert_eq!(map.get(ChildKind::Static, loc(6, 4)), Some(ChildId::Static(StaticId(0))));
    assert_eq!(
        map.get(ChildKind::TypeAlias, loc(6, 5)),
        Some(ChildId::TypeAlias(TypeAliasId(0)))
    );
    assert_eq!(map.get(ChildKind::Trait, loc(6, 6)), Some(ChildId::Trait(TraitId(0))));
    assert_eq!(map.get(ChildKind::Struct, loc(6, 7)), Some(ChildId::Struct(StructId(0))));
    assert_eq!(map.get(ChildKind::Union, loc(6, 8)), Some(ChildId::Union(UnionId(0))));
    assert_eq!(map.get(ChildKind::Enum, loc(6, 9)), Some(ChildId::Enum(EnumId(0))));
    assert_eq!(map.get(ChildKind::Const, loc(6, 3)), Some(ChildId::Const(ConstId(1))));
    assert_eq!(map.get(ChildKind::Impl, loc(6, 10)), Some(ChildId::Impl(ImplId(0))));
    assert_eq!(
        map.get(ChildKind::AttrMacro, loc(6, 11)),
        Some(ChildId::AttrMacro(MacroCallId(42)))
    );
}

#[test]
fn item_scope_indexes_like_its_module() {
    let db = scope_db();
    let from_scope = db.module_scopes[0].child_by_source(&db);
    let from_module = ModuleId(0).child_by_source(&db);
    assert_eq!(from_scope.len(), from_module.len());
    assert_eq!(
        from_scope.get(ChildKind::AttrMacro, loc(6, 11)),
        from_module.get(ChildKind::AttrMacro, loc(6, 11))
    );
}

#[test]
fn body_without_blocks_adds_nothing() {
    let mut db = empty_db();
    db.function_blocks = vec![vec![]];
    let map = DefWithBodyId::FunctionId(FunctionId(0)).child_by_source(&db);
    assert_eq!(map.len(), 0);
    let mut map = DynMap::new();
    map.insert(loc(7, 0), ChildId::Impl(ImplId(3)));
    DefWithBodyId::FunctionId(FunctionId(0)).child_by_source_to(&db, &mut map);
    assert_eq!(map.len(), 1);
}

#[test]
fn body_blocks_are_merged() {
    let mut db = empty_db();
    db.function_sources = vec![Some(loc(8, 0)), Some(loc(8, 1)), Some(loc(8, 2))];
    let mut first = empty_scope();
    first.declarations = vec![ModuleDefId::FunctionId(FunctionId(1))];
    let mut second = empty_scope();
    second.declarations = vec![ModuleDefId::FunctionId(FunctionId(2))];
    db.const_blocks = vec![vec![], vec![first, second]];
    let map = DefWithBodyId::ConstId(ConstId(1)).child_by_source(&db);
    assert_eq!(map.len(), 2);
    assert_eq!(map.get(ChildKind::Function, loc(8, 1)), Some(ChildId::Function(FunctionId(1))));
    assert_eq!(map.get(ChildKind::Function, loc(8, 2)), Some(ChildId::Function(FunctionId(2))));
    assert_eq!(DefWithBodyId::ConstId(ConstId(0)).child_by_source(&db).len(), 0);
}

#[test]
fn container_dispatch_matches_direct_calls() {
    let db = scope_db();
    let containers = [
        ContainerId::Module(ModuleId(0)),
        ContainerId::Trait(TraitId(0)),
        ContainerId::Impl(ImplId(0)),
        ContainerId::Enum(EnumId(0)),
        ContainerId::Variant(VariantId::StructId(StructId(0))),
        ContainerId::Body(DefWithBodyId::StaticId(StaticId(0))),
    ];
    let lens: Vec<usize> = containers.iter().map(|c| c.child_by_source(&db).len()).collect();
    assert_eq!(lens, vec![11, 0, 0, 0, 0, 0]);
}

#[test]
fn recomputing_gives_the_same_index() {
    let db = scope_db();
    let c = ContainerId::Module(ModuleId(0));
    let a = c.child_by_source(&db);
    let b = c.child_by_source(&db);
    assert_eq!(a.len(), b.len());
    for node in 0..12u32 {
        for kind in [ChildKind::Function, ChildKind::Const, ChildKind::Impl, ChildKind::AttrMacro] {
            assert_eq!(a.get(kind, loc(6, node)), b.get(kind, loc(6, node)));
        }
    }
}

#[test]
fn colliding_locations_keep_the_later_child() {
    let mut db = empty_db();
    db.function_sources = vec![Some(loc(9, 1)), Some(loc(9, 1))];
    db.trait_items = vec![vec![
        AssocItemId::FunctionId(FunctionId(0)),
        AssocItemId::FunctionId(FunctionId(1)),
    ]];
    let map = TraitId(0).child_by_source(&db);
    assert_eq!(map.len(), 1);
    assert_eq!(map.get(ChildKind::Function, loc(9, 1)), Some(ChildId::Function(FunctionId(1))));
}

#[test]
fn child_kind_follows_the_id() {
    assert_eq!(ChildId::AttrMacro(MacroCallId(1)).kind(), ChildKind::AttrMacro);
    let f = FieldId { parent: VariantId::StructId(StructId(0)), local_id: 0 };
    assert_eq!(ChildId::TupleField(f).kind(), ChildKind::TupleField);
    assert_eq!(ChildId::RecordField(f).kind(), ChildKind::RecordField);
}
