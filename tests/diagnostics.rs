use hir_index::diagnostics::{
    AstId, CfgAtom, CfgExpr, CfgOptions, DefDiagnostic, DefDiagnosticKind, ItemTreeId,
    MacroCallKind, ModPath, PathKind,
};
use hir_index::ids::LocalModuleId;

fn ast(index: u32) -> AstId {
    AstId { file_id: 1, index }
}

#[test]
fn unresolved_module_payload() {
    let d = DefDiagnostic::unresolved_module(LocalModuleId(3), ast(4), "foo.rs".to_string());
    assert_eq!(d.in_module, LocalModuleId(3));
    assert_eq!(
        d.kind,
        DefDiagnosticKind::UnresolvedModule { ast: ast(4), candidate: "foo.rs".to_string() }
    );
}

#[test]
fn unresolved_extern_crate_payload() {
    let d = DefDiagnostic::unresolved_extern_crate(LocalModuleId(0), ast(9));
    assert_eq!(d.in_module, LocalModuleId(0));
    assert_eq!(d.kind, DefDiagnosticKind::UnresolvedExternCrate { ast: ast(9) });
}

#[test]
fn unresolved_imports_at_two_indices_are_distinct() {
    let id = ItemTreeId { tree: 2, index: 5 };
    let a = DefDiagnostic::unresolved_import(LocalModuleId(1), id, 0);
    let b = DefDiagnostic::unresolved_import(LocalModuleId(1), id, 1);
    assert_ne!(a, b);
    assert_eq!(a.kind, DefDiagnosticKind::UnresolvedImport { id, index: 0 });
    assert_eq!(b.kind, DefDiagnosticKind::UnresolvedImport { id, index: 1 });
    assert_eq!(b.in_module, LocalModuleId(1));
}

#[test]
fn unconfigured_code_payload() {
    let cfg = CfgExpr::Not(Box::new(CfgExpr::Atom(CfgAtom::Flag("test".to_string()))));
    let opts = CfgOptions {
        enabled: vec![
            CfgAtom::Flag("test".to_string()),
            CfgAtom::KeyValue { key: "feature".to_string(), value: "std".to_string() },
        ],
    };
    let d = DefDiagnostic::unconfigured_code(LocalModuleId(2), ast(1), cfg, opts.clone());
    assert_eq!(d.in_module, LocalModuleId(2));
    let expected_cfg = CfgExpr::Not(Box::new(CfgExpr::Atom(CfgAtom::Flag("test".to_string()))));
    assert_eq!(
        d.kind,
        DefDiagnosticKind::UnconfiguredCode { ast: ast(1), cfg: expected_cfg, opts }
    );
}

#[test]
fn unresolved_proc_macro_payload() {
    let call = MacroCallKind::Derive {
        ast_id: ast(7),
        derive_name: "Serialize".to_string(),
        derive_attr_index: 0,
    };
    let d = DefDiagnostic::unresolved_proc_macro(LocalModuleId(5), call.clone());
    assert_eq!(d.in_module, LocalModuleId(5));
    assert_eq!(d.kind, DefDiagnosticKind::UnresolvedProcMacro { ast: call });
}

#[test]
fn macro_error_payload() {
    let call = MacroCallKind::FnLike { ast_id: ast(8) };
    let d = DefDiagnostic::macro_error(LocalModuleId(6), call.clone(), "boom".to_string());
    assert_eq!(d.in_module, LocalModuleId(6));
    assert_eq!(d.kind, DefDiagnosticKind::MacroError { ast: call, message: "boom".to_string() });
}

#[test]
fn unresolved_macro_call_payload() {
    let path = ModPath {
        kind: PathKind::Crate,
        segments: vec!["macros".to_string(), "m".to_string()],
    };
    let d = DefDiagnostic::unresolved_macro_call(LocalModuleId(7), ast(3), path.clone());
    assert_eq!(d.in_module, LocalModuleId(7));
    assert_eq!(d.kind, DefDiagnosticKind::UnresolvedMacroCall { ast: ast(3), path });
}

#[test]
fn unimplemented_builtin_macro_payload() {
    let d = DefDiagnostic::unimplemented_builtin_macro(LocalModuleId(8), ast(2));
    assert_eq!(d.in_module, LocalModuleId(8));
    assert_eq!(d.kind, DefDiagnosticKind::UnimplementedBuiltinMacro { ast: ast(2) });
}

#[test]
fn attr_macro_call_kind_is_kept() {
    let call = MacroCallKind::Attr {
        ast_id: ast(11),
        attr_name: "test_case".to_string(),
        invoc_attr_index: 2,
    };
    let d = DefDiagnostic::unresolved_proc_macro(LocalModuleId(9), call);
    assert_eq!(
        d.kind,
        DefDiagnosticKind::UnresolvedProcMacro {
            ast: MacroCallKind::Attr {
                ast_id: ast(11),
                attr_name: "test_case".to_string(),
                invoc_attr_index: 2,
            }
        }
    );
    assert_ne!(d.in_module, LocalModuleId(8));
}
