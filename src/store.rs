//! The resolved definition graph that reverse indexes are computed from.

use vstd::prelude::*;
use crate::dyn_map::ChildId;
use crate::ids::{AssocItemId, ConstId, ImplId, MacroCallId, ModuleDefId, SourceLoc};

verus! {

/// The items, unnamed constants, impl blocks and attribute macro invocations
/// declared directly in one module.
pub struct ItemScope {
    pub declarations: Vec<ModuleDefId>,
    pub unnamed_consts: Vec<ConstId>,
    pub impls: Vec<ImplId>,
    /// Each invocation: the location of the item the attribute is attached
    /// to, and the call its expansion produced.
    pub attr_macro_invocs: Vec<(SourceLoc, MacroCallId)>,
}

/// Where a field is written: as a positional (tuple) field or as a named
/// (record) field.
#[derive(Clone, Copy, Debug, PartialEq, Eq, Structural, Hash)]
pub enum FieldSource {
    Tuple(SourceLoc),
    Record(SourceLoc),
}

/// A snapshot of the resolved definition graph.
///
/// Each table is indexed by the number inside an id; an id past the end of a
/// table has no source location, no children and no body.
pub struct DefDatabase {
    pub function_sources: Vec<Option<SourceLoc>>,
    pub const_sources: Vec<Option<SourceLoc>>,
    pub static_sources: Vec<Option<SourceLoc>>,
    pub type_alias_sources: Vec<Option<SourceLoc>>,
    pub trait_sources: Vec<Option<SourceLoc>>,
    pub struct_sources: Vec<Option<SourceLoc>>,
    pub union_sources: Vec<Option<SourceLoc>>,
    pub enum_sources: Vec<Option<SourceLoc>>,
    pub impl_sources: Vec<Option<SourceLoc>>,
    /// The associated items of each trait.
    pub trait_items: Vec<Vec<AssocItemId>>,
    /// The associated items of each impl block.
    pub impl_items: Vec<Vec<AssocItemId>>,
    /// The scope of each module.
    pub module_scopes: Vec<ItemScope>,
    /// For each enum, the location of each variant, by slot.
    pub enum_variant_sources: Vec<Vec<SourceLoc>>,
    /// For each struct, its fields by slot.
    pub struct_field_sources: Vec<Vec<FieldSource>>,
    /// For each union, its fields by slot.
    pub union_field_sources: Vec<Vec<FieldSource>>,
    /// For each enum, for each variant, its fields by slot.
    pub variant_field_sources: Vec<Vec<Vec<FieldSource>>>,
    /// For each function, the scopes of the block expressions in its body.
    pub function_blocks: Vec<Vec<ItemScope>>,
    /// For each constant, the scopes of the block expressions in its body.
    pub const_blocks: Vec<Vec<ItemScope>>,
    /// For each static, the scopes of the block expressions in its body.
    pub static_blocks: Vec<Vec<ItemScope>>,
}

pub open spec fn source_at(table: Seq<Option<SourceLoc>>, i: u32) -> Option<SourceLoc> {
    if (i as int) < table.len() {
        table[i as int]
    } else {
        None
    }
}

fn lookup_source(table: &Vec<Option<SourceLoc>>, i: u32) -> (r: Option<SourceLoc>)
    ensures
        r == source_at(table@, i),
{
    if (i as usize) < table.len() {
        table[i as usize]
    } else {
        None
    }
}

impl DefDatabase {
    /// The location a definition originates from; `None` for one that was
    /// synthesized, and for the kinds that are located by their container.
    pub open spec fn source_of(&self, id: ChildId) -> Option<SourceLoc> {
        match id {
            ChildId::Function(f) => source_at(self.function_sources@, f.0),
            ChildId::Const(c) => source_at(self.const_sources@, c.0),
            ChildId::Static(s) => source_at(self.static_sources@, s.0),
            ChildId::TypeAlias(t) => source_at(self.type_alias_sources@, t.0),
            ChildId::Trait(t) => source_at(self.trait_sources@, t.0),
            ChildId::Struct(s) => source_at(self.struct_sources@, s.0),
            ChildId::Union(u) => source_at(self.union_sources@, u.0),
            ChildId::Enum(e) => source_at(self.enum_sources@, e.0),
            ChildId::Impl(i) => source_at(self.impl_sources@, i.0),
            _ => None,
        }
    }

    pub fn source(&self, id: ChildId) -> (r: Option<SourceLoc>)
        ensures
            r == self.source_of(id),
    {
        match id {
            ChildId::Function(f) => lookup_source(&self.function_sources, f.0),
            ChildId::Const(c) => lookup_source(&self.const_sources, c.0),
            ChildId::Static(s) => lookup_source(&self.static_sources, s.0),
            ChildId::TypeAlias(t) => lookup_source(&self.type_alias_sources, t.0),
            ChildId::Trait(t) => lookup_source(&self.trait_sources, t.0),
            ChildId::Struct(s) => lookup_source(&self.struct_sources, s.0),
            ChildId::Union(u) => lookup_source(&self.union_sources, u.0),
            ChildId::Enum(e) => lookup_source(&self.enum_sources, e.0),
            ChildId::Impl(i) => lookup_source(&self.impl_sources, i.0),
            _ => None,
        }
    }
}

} // verus!
