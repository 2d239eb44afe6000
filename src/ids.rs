//! Semantic ids and source locations.

use vstd::prelude::*;

verus! {

/// Where a syntax node originates: the syntax tree (a file, or the output of
/// one macro expansion) and the node's position within that tree.
#[derive(Clone, Copy, Debug, PartialEq, Eq, Structural, Hash)]
pub struct SourceLoc {
    pub tree: u32,
    pub node: u32,
}

#[derive(Clone, Copy, Debug, PartialEq, Eq, Structural, Hash)]
pub struct FunctionId(pub u32);

#[derive(Clone, Copy, Debug, PartialEq, Eq, Structural, Hash)]
pub struct ConstId(pub u32);

#[derive(Clone, Copy, Debug, PartialEq, Eq, Structural, Hash)]
pub struct StaticId(pub u32);

#[derive(Clone, Copy, Debug, PartialEq, Eq, Structural, Hash)]
pub struct TypeAliasId(pub u32);

#[derive(Clone, Copy, Debug, PartialEq, Eq, Structural, Hash)]
pub struct TraitId(pub u32);

#[derive(Clone, Copy, Debug, PartialEq, Eq, Structural, Hash)]
pub struct StructId(pub u32);

#[derive(Clone, Copy, Debug, PartialEq, Eq, Structural, Hash)]
pub struct UnionId(pub u32);

#[derive(Clone, Copy, Debug, PartialEq, Eq, Structural, Hash)]
pub struct EnumId(pub u32);

#[derive(Clone, Copy, Debug, PartialEq, Eq, Structural, Hash)]
pub struct ImplId(pub u32);

#[derive(Clone, Copy, Debug, PartialEq, Eq, Structural, Hash)]
pub struct ModuleId(pub u32);

/// A module's index within the definition map of its crate.
#[derive(Clone, Copy, Debug, PartialEq, Eq, Structural, Hash)]
pub struct LocalModuleId(pub u32);

/// The call produced by expanding a macro invocation.
#[derive(Clone, Copy, Debug, PartialEq, Eq, Structural, Hash)]
pub struct MacroCallId(pub u32);

/// A variant of an enum, by its slot in the enum's variant list.
#[derive(Clone, Copy, Debug, PartialEq, Eq, Structural, Hash)]
pub struct EnumVariantId {
    pub parent: EnumId,
    pub local_id: usize,
}

/// Anything that owns fields.
#[derive(Clone, Copy, Debug, PartialEq, Eq, Structural, Hash)]
pub enum VariantId {
    EnumVariantId(EnumVariantId),
    StructId(StructId),
    UnionId(UnionId),
}

/// A field, by its slot in the field list of its owner.
#[derive(Clone, Copy, Debug, PartialEq, Eq, Structural, Hash)]
pub struct FieldId {
    pub parent: VariantId,
    pub local_id: usize,
}

#[derive(Clone, Copy, Debug, PartialEq, Eq, Structural, Hash)]
pub enum AdtId {
    StructId(StructId),
    UnionId(UnionId),
    EnumId(EnumId),
}

/// An item of a trait or of an impl block.
#[derive(Clone, Copy, Debug, PartialEq, Eq, Structural, Hash)]
pub enum AssocItemId {
    FunctionId(FunctionId),
    ConstId(ConstId),
    TypeAliasId(TypeAliasId),
}

/// A definition declared by name in a module scope.
#[derive(Clone, Copy, Debug, PartialEq, Eq, Structural, Hash)]
pub enum ModuleDefId {
    ModuleId(ModuleId),
    FunctionId(FunctionId),
    AdtId(AdtId),
    EnumVariantId(EnumVariantId),
    ConstId(ConstId),
    StaticId(StaticId),
    TraitId(TraitId),
    TypeAliasId(TypeAliasId),
}

/// A definition that owns a body of expressions.
#[derive(Clone, Copy, Debug, PartialEq, Eq, Structural, Hash)]
pub enum DefWithBodyId {
    FunctionId(FunctionId),
    StaticId(StaticId),
    ConstId(ConstId),
}

} // verus!
