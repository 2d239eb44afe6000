//! Diagnostics recorded while the definition map of a crate is built.

use vstd::prelude::*;
use crate::ids::LocalModuleId;

verus! {

/// A syntax node of a file or macro expansion, by its index in that tree's
/// table of addressable nodes.
#[derive(Clone, Copy, Debug, PartialEq, Eq, Structural, Hash)]
pub struct AstId {
    pub file_id: u32,
    pub index: u32,
}

/// An item of an item tree.
#[derive(Clone, Copy, Debug, PartialEq, Eq, Structural, Hash)]
pub struct ItemTreeId {
    pub tree: u32,
    pub index: u32,
}

/// An atomic configuration predicate: `flag` or `key = "value"`.
#[derive(Clone, Debug, PartialEq, Eq, Hash)]
pub enum CfgAtom {
    Flag(String),
    KeyValue { key: String, value: String },
}

/// A conditional-compilation predicate.
#[derive(Debug, PartialEq, Eq)]
pub enum CfgExpr {
    Invalid,
    Atom(CfgAtom),
    All(Vec<CfgExpr>),
    Any(Vec<CfgExpr>),
    Not(Box<CfgExpr>),
}

/// The set of configuration atoms that are enabled.
#[derive(Clone, Debug, PartialEq, Eq, Default)]
pub struct CfgOptions {
    pub enabled: Vec<CfgAtom>,
}

/// Where a macro is invoked.
#[derive(Clone, Debug, PartialEq, Eq, Hash)]
pub enum MacroCallKind {
    FnLike { ast_id: AstId },
    Derive { ast_id: AstId, derive_name: String, derive_attr_index: u32 },
    Attr { ast_id: AstId, attr_name: String, invoc_attr_index: u32 },
}

/// What a path is relative to.
#[derive(Clone, Copy, Debug, PartialEq, Eq, Structural, Hash)]
pub enum PathKind {
    Plain,
    /// `self` is `Super(0)`.
    Super(u8),
    Crate,
    Abs,
    DollarCrate(u32),
}

/// A path to a module-level item.
#[derive(Clone, Debug, PartialEq, Eq, Hash)]
pub struct ModPath {
    pub kind: PathKind,
    pub segments: Vec<String>,
}

/// What went wrong, with the data that locates it.
#[derive(Debug, PartialEq, Eq)]
pub enum DefDiagnosticKind {
    UnresolvedModule { ast: AstId, candidate: String },
    UnresolvedExternCrate { ast: AstId },
    UnresolvedImport { id: ItemTreeId, index: u32 },
    UnconfiguredCode { ast: AstId, cfg: CfgExpr, opts: CfgOptions },
    UnresolvedProcMacro { ast: MacroCallKind },
    UnresolvedMacroCall { ast: AstId, path: ModPath },
    MacroError { ast: MacroCallKind, message: String },
    UnimplementedBuiltinMacro { ast: AstId },
}

/// A failure observed in one module while its definitions were resolved.
#[derive(Debug, PartialEq, Eq)]
pub struct DefDiagnostic {
    pub in_module: LocalModuleId,
    pub kind: DefDiagnosticKind,
}

impl DefDiagnostic {
    /// A `mod` declaration for which no file was found at `candidate`.
    pub fn unresolved_module(container: LocalModuleId, declaration: AstId, candidate: String) -> (r:
        Self)
        ensures
            r == (DefDiagnostic {
                in_module: container,
                kind: DefDiagnosticKind::UnresolvedModule { ast: declaration, candidate },
            }),
    {
        Self {
            in_module: container,
            kind: DefDiagnosticKind::UnresolvedModule { ast: declaration, candidate },
        }
    }

    /// An extern crate declaration whose crate is unknown.
    pub fn unresolved_extern_crate(container: LocalModuleId, declaration: AstId) -> (r: Self)
        ensures
            r == (DefDiagnostic {
                in_module: container,
                kind: DefDiagnosticKind::UnresolvedExternCrate { ast: declaration },
            }),
    {
        Self {
            in_module: container,
            kind: DefDiagnosticKind::UnresolvedExternCrate { ast: declaration },
        }
    }

    /// The use tree at `index` of the import `id` did not resolve.
    pub fn unresolved_import(container: LocalModuleId, id: ItemTreeId, index: u32) -> (r: Self)
        ensures
            r == (DefDiagnostic {
                in_module: container,
                kind: DefDiagnosticKind::UnresolvedImport { id, index },
            }),
    {
        Self { in_module: container, kind: DefDiagnosticKind::UnresolvedImport { id, index } }
    }

    /// An item left out because `cfg` is false under `opts`.
    pub fn unconfigured_code(
        container: LocalModuleId,
        ast: AstId,
        cfg: CfgExpr,
        opts: CfgOptions,
    ) -> (r: Self)
        ensures
            r == (DefDiagnostic {
                in_module: container,
                kind: DefDiagnosticKind::UnconfiguredCode { ast, cfg, opts },
            }),
    {
        Self { in_module: container, kind: DefDiagnosticKind::UnconfiguredCode { ast, cfg, opts } }
    }

    /// A procedural macro whose implementation could not be loaded.
    pub fn unresolved_proc_macro(container: LocalModuleId, ast: MacroCallKind) -> (r: Self)
        ensures
            r == (DefDiagnostic {
                in_module: container,
                kind: DefDiagnosticKind::UnresolvedProcMacro { ast },
            }),
    {
        Self { in_module: container, kind: DefDiagnosticKind::UnresolvedProcMacro { ast } }
    }

    /// A macro expansion that reported `message`.
    pub fn macro_error(container: LocalModuleId, ast: MacroCallKind, message: String) -> (r: Self)
        ensures
            r == (DefDiagnostic {
                in_module: container,
                kind: DefDiagnosticKind::MacroError { ast, message },
            }),
    {
        Self { in_module: container, kind: DefDiagnosticKind::MacroError { ast, message } }
    }

    /// A macro invocation whose `path` did not resolve.
    pub fn unresolved_macro_call(container: LocalModuleId, ast: AstId, path: ModPath) -> (r: Self)
        ensures
            r == (DefDiagnostic {
                in_module: container,
                kind: DefDiagnosticKind::UnresolvedMacroCall { ast, path },
            }),
    {
        Self { in_module: container, kind: DefDiagnosticKind::UnresolvedMacroCall { ast, path } }
    }

    /// A built-in macro that is recognized but not implemented.
    pub fn unimplemented_builtin_macro(container: LocalModuleId, ast: AstId) -> (r: Self)
        ensures
            r == (DefDiagnostic {
                in_module: container,
                kind: DefDiagnosticKind::UnimplementedBuiltinMacro { ast },
            }),
    {
        Self { in_module: container, kind: DefDiagnosticKind::UnimplementedBuiltinMacro { ast } }
    }
}

/// Two use trees of one import that fail to resolve give two different
/// diagnostics.
pub proof fn lemma_import_failures_distinct(container: LocalModuleId, id: ItemTreeId, i: u32, j: u32)
    requires
        i != j,
    ensures
        (DefDiagnostic {
            in_module: container,
            kind: DefDiagnosticKind::UnresolvedImport { id, index: i },
        }) != (DefDiagnostic {
            in_module: container,
            kind: DefDiagnosticKind::UnresolvedImport { id, index: j },
        }),
{
}

} // verus!
