use codegraph::extract::go::GoExtractor;
use codegraph::extract::Extractor;
use codegraph::graph::types::{
    BindingKind, EntryPoint, RefRole, ScopeId, ScopeKind, SymbolKind, TypeRefContext, Visibility,
};

#[test]
fn extracts_exported_defs() {
    let src = r#"
package auth

func Validate(tok string) bool { return true }
type Config struct { Timeout int }
type Reader interface { Read() error }
const Max = 3
func helper() {}
"#;
    let facts = GoExtractor.extract(src, "src/auth/session.go").unwrap();
    let by_name = |n: &str| facts.symbols.iter().find(|s| s.name == n).cloned();

    let vt = by_name("Validate").unwrap();
    assert_eq!(vt.id.to_scip_string(), "codegraph . . . auth/Validate().");
    assert_eq!(vt.kind, SymbolKind::Function);
    assert_eq!(vt.visibility, Visibility::Public);

    assert_eq!(by_name("Config").unwrap().kind, SymbolKind::Struct);
    assert_eq!(by_name("Config").unwrap().visibility, Visibility::Public);
    assert_eq!(by_name("Reader").unwrap().kind, SymbolKind::Interface);
    assert_eq!(by_name("Max").unwrap().kind, SymbolKind::Const);

    // unexported — emitted as Internal (package-private)
    let helper = by_name("helper").expect("helper must be emitted");
    assert_eq!(helper.kind, SymbolKind::Function);
    assert_eq!(helper.visibility, Visibility::Internal);

    assert_eq!(facts.lang, "go");
}

#[test]
fn flat_files_same_package_share_namespace() {
    // Two FLAT (directory-less) files declaring the same `package main` share
    // the namespace `["main"]` via the flat-file package-clause fallback —
    // this is what lets cross-file resolution stitch the eval corpus.
    let util = GoExtractor
        .extract("package main\nfunc Helper() {}\n", "util.go")
        .unwrap();
    let main = GoExtractor
        .extract("package main\nfunc Run() { Helper() }\n", "main.go")
        .unwrap();
    let helper = util.symbols.iter().find(|s| s.name == "Helper").unwrap();
    let run = main.symbols.iter().find(|s| s.name == "Run").unwrap();
    assert_eq!(helper.id.to_scip_string(), "codegraph . . . main/Helper().");
    assert_eq!(run.id.to_scip_string(), "codegraph . . . main/Run().");
}

#[test]
fn different_directories_are_different_packages() {
    // Go: one package per directory. Same package name in different dirs is
    // a DIFFERENT package, so namespaces (and SCIP ids) must differ.
    let a = GoExtractor
        .extract("package x\nfunc F() {}\n", "pkg_a/x.go")
        .unwrap();
    let b = GoExtractor
        .extract("package x\nfunc F() {}\n", "pkg_b/x.go")
        .unwrap();
    let fa = a.symbols.iter().find(|s| s.name == "F").unwrap();
    let fb = b.symbols.iter().find(|s| s.name == "F").unwrap();
    assert_eq!(fa.id.to_scip_string(), "codegraph . . . pkg_a/F().");
    assert_eq!(fb.id.to_scip_string(), "codegraph . . . pkg_b/F().");
    assert_ne!(fa.id.to_scip_string(), fb.id.to_scip_string());
}

#[test]
fn namespace_falls_back_to_file_stem_without_package_clause() {
    // Flat file (`src/util.go` → `util.go`) with no parseable `package`
    // clause → last-resort file-stem fallback → `["util"]`.
    let facts = GoExtractor
        .extract("func Helper() {}\n", "src/util.go")
        .unwrap();
    let helper = facts.symbols.iter().find(|s| s.name == "Helper").unwrap();
    assert_eq!(helper.id.to_scip_string(), "codegraph . . . util/Helper().");
}

#[test]
fn extracts_method_declaration() {
    let src = r#"
package run

type Server struct{}

func (s *Server) Start() { }
"#;
    let facts = GoExtractor.extract(src, "src/run.go").unwrap();
    let start = facts.symbols.iter().find(|s| s.name == "Start").unwrap();
    assert_eq!(start.kind, SymbolKind::Method);
    // The method nests under its receiver type (`Server#`), SCIP-aligned and
    // consistent with every other language's `Type#method` identity.
    assert_eq!(
        start.id.to_scip_string(),
        "codegraph . . . run/Server#Start()."
    );
}

#[test]
fn go_extracts_call_references() {
    let src = r#"
package main

func main() {
    Validate("t")
    obj.Close()
}
"#;
    let facts = GoExtractor.extract(src, "src/main.go").unwrap();
    let names: Vec<&str> = facts.references.iter().map(|r| r.name.as_str()).collect();
    assert!(names.contains(&"Validate"));
    assert!(names.contains(&"Close"));
}

#[test]
fn import_single_stdlib() {
    let src = "package main\nimport \"fmt\"\n";
    let facts = GoExtractor.extract(src, "src/main.go").unwrap();
    let imports: Vec<&str> = facts
        .references
        .iter()
        .filter(|r| r.role == RefRole::Import)
        .map(|r| r.name.as_str())
        .collect();
    assert_eq!(imports, vec!["fmt"]);
}

#[test]
fn import_deep_path_leaf() {
    let src = "package main\nimport \"github.com/x/y/pkg\"\n";
    let facts = GoExtractor.extract(src, "src/main.go").unwrap();
    let imports: Vec<&str> = facts
        .references
        .iter()
        .filter(|r| r.role == RefRole::Import)
        .map(|r| r.name.as_str())
        .collect();
    assert_eq!(imports, vec!["pkg"]);
}

#[test]
fn import_grouped() {
    let src = "package main\nimport (\n  \"os\"\n  \"io/ioutil\"\n)\n";
    let facts = GoExtractor.extract(src, "src/main.go").unwrap();
    let mut imports: Vec<&str> = facts
        .references
        .iter()
        .filter(|r| r.role == RefRole::Import)
        .map(|r| r.name.as_str())
        .collect();
    imports.sort_unstable();
    assert_eq!(imports, vec!["ioutil", "os"]);
}

#[test]
fn import_aliased_emits_leaf_not_alias() {
    let src = "package main\nimport f \"fmt\"\n";
    let facts = GoExtractor.extract(src, "src/main.go").unwrap();
    let imports: Vec<&str> = facts
        .references
        .iter()
        .filter(|r| r.role == RefRole::Import)
        .map(|r| r.name.as_str())
        .collect();
    // The package leaf "fmt" must be emitted; the alias "f" must not appear
    // as an Import reference.
    assert_eq!(imports, vec!["fmt"]);
    let aliases: Vec<&str> = facts
        .references
        .iter()
        .filter(|r| r.role == RefRole::Import && r.name == "f")
        .map(|r| r.name.as_str())
        .collect();
    assert!(
        aliases.is_empty(),
        "alias 'f' should not appear as an Import ref"
    );
}

// ── Tier-B scope / binding tests ─────────────────────────────────────────

#[test]
fn go_func_params_emit_param_bindings() {
    // `func f(a int, b int) {}` → two Param bindings in a Function scope.
    let src = "package p\nfunc f(a int, b int) {}\n";
    let facts = GoExtractor.extract(src, "src/p.go").unwrap();

    let fn_scope_id = facts
        .scopes
        .iter()
        .position(|s| s.kind == ScopeKind::Function)
        .expect("expected a Function scope");

    let mut param_names: Vec<(&str, ScopeId)> = facts
        .bindings
        .iter()
        .filter(|b| b.kind == BindingKind::Param)
        .map(|b| (b.name.as_str(), b.scope))
        .collect();
    param_names.sort_by_key(|(n, _)| *n);

    assert_eq!(
        param_names,
        vec![("a", fn_scope_id), ("b", fn_scope_id)],
        "expected Param bindings for a and b, got {param_names:?}"
    );
}

#[test]
fn method_receiver_emits_param_binding() {
    // `func (s *Server) Start() {}` → Param binding for `s`.
    let src = "package p\ntype Server struct{}\nfunc (s *Server) Start() {}\n";
    let facts = GoExtractor.extract(src, "src/p.go").unwrap();

    let s_binding = facts
        .bindings
        .iter()
        .find(|b| b.kind == BindingKind::Param && b.name == "s")
        .expect("expected a Param binding named 's'");
    assert_eq!(
        facts.scopes[s_binding.scope].kind,
        ScopeKind::Function,
        "receiver binding 's' should be in a Function scope"
    );
}

#[test]
fn short_var_decl_emits_local() {
    // `func f() { x := 1 }` → Local binding for `x`.
    let src = "package p\nfunc f() { x := 1 }\n";
    let facts = GoExtractor.extract(src, "src/p.go").unwrap();

    let x = facts
        .bindings
        .iter()
        .find(|b| b.kind == BindingKind::Local && b.name == "x")
        .expect("expected a Local binding for 'x'");
    assert_eq!(
        facts.scopes[x.scope].kind,
        ScopeKind::Function,
        "x should be in a Function scope"
    );
}

#[test]
fn multi_name_short_var_emits_two_locals() {
    // `func f() { a, b := 1, 2 }` → two Local bindings.
    let src = "package p\nfunc f() { a, b := 1, 2 }\n";
    let facts = GoExtractor.extract(src, "src/p.go").unwrap();

    let locals: Vec<&str> = facts
        .bindings
        .iter()
        .filter(|b| b.kind == BindingKind::Local)
        .map(|b| b.name.as_str())
        .collect();
    assert!(
        locals.contains(&"a"),
        "expected Local for 'a', got {locals:?}"
    );
    assert!(
        locals.contains(&"b"),
        "expected Local for 'b', got {locals:?}"
    );
}

#[test]
fn blank_identifier_skipped() {
    // `func f() { _, b := g() }` → Local `b` only; no binding for `_`.
    let src = "package p\nfunc g() (int, int) { return 0, 0 }\nfunc f() { _, b := g() }\n";
    let facts = GoExtractor.extract(src, "src/p.go").unwrap();

    assert!(
        !facts
            .bindings
            .iter()
            .any(|b| b.kind == BindingKind::Local && b.name == "_"),
        "blank '_' must not produce a Local binding"
    );
    assert!(
        facts
            .bindings
            .iter()
            .any(|b| b.kind == BindingKind::Local && b.name == "b"),
        "expected Local binding for 'b'"
    );
}

#[test]
fn var_spec_inside_func_emits_local() {
    // `func f() { var x int }` → Local binding for `x`.
    let src = "package p\nfunc f() { var x int }\n";
    let facts = GoExtractor.extract(src, "src/p.go").unwrap();

    let x = facts
        .bindings
        .iter()
        .find(|b| b.kind == BindingKind::Local && b.name == "x")
        .expect("expected a Local binding for 'x'");
    assert_eq!(
        facts.scopes[x.scope].kind,
        ScopeKind::Function,
        "var inside func should bind in a Function scope"
    );
}

#[test]
fn for_range_vars_emit_locals() {
    // `func f() { for i, v := range xs { _ = i; _ = v } }` → Locals `i`, `v`.
    let src = "package p\nfunc f() { var xs []int\nfor i, v := range xs { _ = i; _ = v } }\n";
    let facts = GoExtractor.extract(src, "src/p.go").unwrap();

    let locals: Vec<&str> = facts
        .bindings
        .iter()
        .filter(|b| b.kind == BindingKind::Local)
        .map(|b| b.name.as_str())
        .collect();
    assert!(
        locals.contains(&"i"),
        "expected Local for 'i', got {locals:?}"
    );
    assert!(
        locals.contains(&"v"),
        "expected Local for 'v', got {locals:?}"
    );
}

#[test]
fn top_level_var_is_not_local_but_is_definition() {
    // `var Config int` at package level → Definition binding only, no Local.
    let src = "package p\nvar Config int\n";
    let facts = GoExtractor.extract(src, "src/p.go").unwrap();

    assert!(
        !facts
            .bindings
            .iter()
            .any(|b| b.kind == BindingKind::Local && b.name == "Config"),
        "top-level var must NOT be a Local binding"
    );
    assert!(
        facts
            .bindings
            .iter()
            .any(|b| b.kind == BindingKind::Definition && b.name == "Config"),
        "top-level var must have a Definition binding"
    );
}

#[test]
fn nested_block_produces_block_scope_and_ref_attaches_to_it() {
    // A single function with a bare inner block containing a call:
    //   func f() { { helper() } }
    // Expected scopes: Module(0) → Function(1) → Block(2).
    // The `helper` call ref must attribute to the Block scope.
    let src = "package p\nfunc f() { { helper() } }\n";
    let facts = GoExtractor.extract(src, "src/p.go").unwrap();

    assert_eq!(
        facts.scopes[0].kind,
        ScopeKind::Module,
        "scopes[0] must be Module"
    );

    let fn_scope_id = facts
        .scopes
        .iter()
        .position(|s| s.kind == ScopeKind::Function)
        .expect("expected a Function scope");
    let block_scope_id = facts
        .scopes
        .iter()
        .position(|s| s.kind == ScopeKind::Block)
        .expect("expected a Block scope");

    // Block's parent must be the Function scope.
    assert_eq!(
        facts.scopes[block_scope_id].parent,
        Some(fn_scope_id),
        "Block scope parent should be the Function scope"
    );

    // `helper` call ref must be in the Block scope (innermost).
    let h_ref = facts
        .references
        .iter()
        .find(|r| r.role == RefRole::Call && r.name == "helper")
        .expect("expected a Call ref for 'helper'");
    assert_eq!(
        h_ref.scope,
        Some(block_scope_id),
        "helper() call should be in the Block scope ({}), got {:?}",
        block_scope_id,
        h_ref.scope
    );
}

#[test]
fn selector_call_captures_package_qualifier() {
    // `alpha.Helper()` → the Call ref for `Helper` carries qualifier `alpha`
    // (the selector operand), so Tier-B can resolve the cross-package call.
    let facts = GoExtractor
        .extract(
            "package main\nfunc Run() {\n\talpha.Helper()\n}\n",
            "main.go",
        )
        .unwrap();
    let call = facts
        .references
        .iter()
        .find(|r| r.role == RefRole::Call && r.name == "Helper")
        .expect("expected a Call ref for 'Helper'");
    assert_eq!(call.qualifier.as_deref(), Some("alpha"));

    // A bare same-package call carries no qualifier.
    let bare = GoExtractor
        .extract(
            "package main\nfunc Helper() {}\nfunc Run() {\n\tHelper()\n}\n",
            "main.go",
        )
        .unwrap();
    let bare_call = bare
        .references
        .iter()
        .find(|r| r.role == RefRole::Call && r.name == "Helper")
        .expect("expected a Call ref for 'Helper'");
    assert_eq!(bare_call.qualifier, None);
}

#[test]
fn top_level_func_emits_definition_binding() {
    // `func Helper() {}` → Definition binding named "Helper".
    let src = "package p\nfunc Helper() {}\n";
    let facts = GoExtractor.extract(src, "src/p.go").unwrap();

    let b = facts
        .bindings
        .iter()
        .find(|b| b.kind == BindingKind::Definition && b.name == "Helper")
        .expect("expected a Definition binding for 'Helper'");
    assert_eq!(b.scope, 0, "top-level def must bind in scope 0");
}

// ── Edge richness: Read / Write ──────────────────────────────────────────

#[test]
fn go_read_ref_at_use_not_at_decl() {
    // `func f() int { base := 1; return base }` →
    //   Read ref for `base` at the `return base` use site only;
    //   the `:=` LHS must NOT become a Read.
    let src = "package p\nfunc f() int { base := 1; return base }\n";
    let facts = GoExtractor.extract(src, "src/p.go").unwrap();
    let read_refs: Vec<_> = facts
        .references
        .iter()
        .filter(|r| r.role == RefRole::Read && r.name == "base")
        .collect();
    // Must have at least one Read ref (the `return base` use).
    assert!(
        !read_refs.is_empty(),
        "expected at least one Read ref for 'base', got none"
    );
    // All Read refs must be AFTER the `:=` declaration.
    // In the source `func f() int { base := 1; return base }`,
    // the `:=` appears at byte ~21; `return base` starts later.
    for r in &read_refs {
        assert!(
            r.occ.byte > 20,
            "Read ref for 'base' must be at the use site (byte > 20), got byte {}",
            r.occ.byte
        );
    }
}

#[test]
fn write_ref_for_assignment_statement() {
    // `func f() { cnt := 0; cnt = 5 }` →
    //   Write ref for `cnt` at `cnt = 5`; the `:=` is a definition, not a write.
    let src = "package p\nfunc f() { cnt := 0; cnt = 5 }\n";
    let facts = GoExtractor.extract(src, "src/p.go").unwrap();
    let write_refs: Vec<_> = facts
        .references
        .iter()
        .filter(|r| r.role == RefRole::Write && r.name == "cnt")
        .collect();
    assert!(
        !write_refs.is_empty(),
        "expected at least one Write ref for 'cnt', got none — all refs: {:?}",
        facts
            .references
            .iter()
            .map(|r| (&r.name, r.role))
            .collect::<Vec<_>>()
    );
}

#[test]
fn go_call_not_also_read() {
    // `func f() { helper() }` → Call ref for "helper", NOT also a Read.
    let src = "package p\nfunc f() { helper() }\n";
    let facts = GoExtractor.extract(src, "src/p.go").unwrap();
    let call_refs: Vec<_> = facts
        .references
        .iter()
        .filter(|r| r.role == RefRole::Call && r.name == "helper")
        .collect();
    assert!(!call_refs.is_empty(), "expected a Call ref for 'helper'");
    let read_refs: Vec<_> = facts
        .references
        .iter()
        .filter(|r| r.role == RefRole::Read && r.name == "helper")
        .collect();
    assert!(
        read_refs.is_empty(),
        "helper() must NOT produce a Read ref; got: {read_refs:?}"
    );
}

// ── TypeRef tests ────────────────────────────────────────────────────────

#[test]
fn go_type_ref_param_type() {
    // `func f(c Config) {}` → TypeRef "Config" ctx ParameterType.
    let src = "package p\nfunc f(c Config) {}\n";
    let facts = GoExtractor.extract(src, "src/p.go").unwrap();
    let found = facts
        .references
        .iter()
        .find(|r| {
            r.role == RefRole::TypeRef
                && r.name == "Config"
                && r.type_ref_ctx == Some(TypeRefContext::ParameterType)
        })
        .is_some();
    assert!(
        found,
        "expected TypeRef 'Config' with ParameterType context"
    );
}

#[test]
fn type_ref_pointer_param_type() {
    // `func f(c *Config) {}` → TypeRef "Config" ParameterType (pointer unwrapped).
    let src = "package p\nfunc f(c *Config) {}\n";
    let facts = GoExtractor.extract(src, "src/p.go").unwrap();
    let found = facts
        .references
        .iter()
        .find(|r| {
            r.role == RefRole::TypeRef
                && r.name == "Config"
                && r.type_ref_ctx == Some(TypeRefContext::ParameterType)
        })
        .is_some();
    assert!(
        found,
        "expected TypeRef 'Config' with ParameterType from pointer param; refs: {:?}",
        facts
            .references
            .iter()
            .filter(|r| r.role == RefRole::TypeRef)
            .map(|r| (&r.name, r.type_ref_ctx))
            .collect::<Vec<_>>()
    );
}

#[test]
fn go_type_ref_return_type() {
    // `func f() Config { return Config{} }` → TypeRef "Config" ctx ReturnType.
    let src = "package p\nfunc f() Config { return Config{} }\n";
    let facts = GoExtractor.extract(src, "src/p.go").unwrap();
    let found = facts
        .references
        .iter()
        .find(|r| {
            r.role == RefRole::TypeRef
                && r.name == "Config"
                && r.type_ref_ctx == Some(TypeRefContext::ReturnType)
        })
        .is_some();
    assert!(
        found,
        "expected TypeRef 'Config' with ReturnType context; refs: {:?}",
        facts
            .references
            .iter()
            .filter(|r| r.role == RefRole::TypeRef)
            .map(|r| (&r.name, r.type_ref_ctx))
            .collect::<Vec<_>>()
    );
}

#[test]
fn type_ref_struct_field_type() {
    // `type T struct { conf Config }` → TypeRef "Config" ctx Field.
    let src = "package p\ntype T struct { conf Config }\n";
    let facts = GoExtractor.extract(src, "src/p.go").unwrap();
    let found = facts
        .references
        .iter()
        .find(|r| {
            r.role == RefRole::TypeRef
                && r.name == "Config"
                && r.type_ref_ctx == Some(TypeRefContext::Field)
        })
        .is_some();
    assert!(
        found,
        "expected TypeRef 'Config' with Field context; refs: {:?}",
        facts
            .references
            .iter()
            .filter(|r| r.role == RefRole::TypeRef)
            .map(|r| (&r.name, r.type_ref_ctx))
            .collect::<Vec<_>>()
    );
}

// ── Visibility tests ─────────────────────────────────────────────────────

#[test]
fn exported_func_has_public_visibility() {
    // A capitalized function name → Visibility::Public.
    let src = "package p\nfunc Exported() {}\n";
    let facts = GoExtractor.extract(src, "src/p.go").unwrap();
    let sym = facts
        .symbols
        .iter()
        .find(|s| s.name == "Exported")
        .expect("Exported must be emitted");
    assert_eq!(
        sym.visibility,
        Visibility::Public,
        "capitalized func must be Public"
    );
}

#[test]
fn unexported_func_emitted_as_internal() {
    // A lowercase function name → emitted with Visibility::Internal.
    let src = "package p\nfunc unexported() {}\n";
    let facts = GoExtractor.extract(src, "src/p.go").unwrap();
    let sym = facts
        .symbols
        .iter()
        .find(|s| s.name == "unexported")
        .expect("unexported func must be emitted");
    assert_eq!(
        sym.kind,
        SymbolKind::Function,
        "unexported func kind must be Function"
    );
    assert_eq!(
        sym.visibility,
        Visibility::Internal,
        "lowercase func must be Internal (package-private)"
    );
}

#[test]
fn unexported_type_emitted_as_internal() {
    // A lowercase type name → emitted with Visibility::Internal.
    let src = "package p\ntype internalState struct { x int }\n";
    let facts = GoExtractor.extract(src, "src/p.go").unwrap();
    let sym = facts
        .symbols
        .iter()
        .find(|s| s.name == "internalState")
        .expect("internalState type must be emitted");
    assert_eq!(sym.kind, SymbolKind::Struct);
    assert_eq!(
        sym.visibility,
        Visibility::Internal,
        "lowercase type must be Internal"
    );
}

#[test]
fn unexported_const_emitted_as_internal() {
    // A lowercase const name → emitted with Visibility::Internal.
    let src = "package p\nconst maxRetries = 3\n";
    let facts = GoExtractor.extract(src, "src/p.go").unwrap();
    let sym = facts
        .symbols
        .iter()
        .find(|s| s.name == "maxRetries")
        .expect("maxRetries const must be emitted");
    assert_eq!(sym.kind, SymbolKind::Const);
    assert_eq!(
        sym.visibility,
        Visibility::Internal,
        "lowercase const must be Internal"
    );
}

#[test]
fn selector_receiver_is_read_field_is_not() {
    // `func f(conn Conn) { _ = conn.field }` →
    //   Read ref for `conn` (the receiver/operand); no Read ref named "field"
    //   (field_identifier, a different node kind, is naturally excluded).
    let src = "package p\ntype Conn struct{}\nfunc f(conn Conn) { _ = conn.field }\n";
    let facts = GoExtractor.extract(src, "src/p.go").unwrap();
    let field_reads: Vec<_> = facts
        .references
        .iter()
        .filter(|r| r.role == RefRole::Read && r.name == "field")
        .collect();
    assert!(
        field_reads.is_empty(),
        "selector field 'field' must NOT be a Read ref; got: {field_reads:?}"
    );
    // `conn` is a read of the receiver value.
    let conn_reads: Vec<_> = facts
        .references
        .iter()
        .filter(|r| r.role == RefRole::Read && r.name == "conn")
        .collect();
    assert!(
        !conn_reads.is_empty(),
        "expected a Read ref for the receiver 'conn'"
    );
}

// ── Entry-point detection ────────────────────────────────────────────────

#[test]
fn entry_point_main_function() {
    // `func main() {}` in package main → EntryPoint::Main.
    let src = "package main\n\nfunc main() {}\n";
    let facts = GoExtractor.extract(src, "main.go").unwrap();
    let sym = facts
        .symbols
        .iter()
        .find(|s| s.name == "main")
        .unwrap_or_else(|| {
            panic!(
                "symbol 'main' not found; symbols: {:?}",
                facts.symbols.iter().map(|s| &s.name).collect::<Vec<_>>()
            )
        });
    assert_eq!(
        sym.entry_points.len(),
        1,
        "expected exactly 1 entry point for 'main', got {:?}",
        sym.entry_points
    );
    assert!(
        matches!(sym.entry_points[0], EntryPoint::Main),
        "expected EntryPoint::Main, got {:?}",
        sym.entry_points
    );
}

#[test]
fn entry_point_serve_http_method() {
    // A method named ServeHTTP → EntryPoint::HttpRoute("ServeHTTP").
    // (implements http.Handler — the idiomatic Go HTTP dispatch method)
    let src = "package main\n\ntype Handler struct{}\n\nfunc (h *Handler) ServeHTTP(w http.ResponseWriter, r *http.Request) {}\n";
    let facts = GoExtractor.extract(src, "main.go").unwrap();
    let sym = facts
        .symbols
        .iter()
        .find(|s| s.name == "ServeHTTP")
        .unwrap_or_else(|| {
            panic!(
                "symbol 'ServeHTTP' not found; symbols: {:?}",
                facts.symbols.iter().map(|s| &s.name).collect::<Vec<_>>()
            )
        });
    assert_eq!(sym.kind, SymbolKind::Method, "ServeHTTP must be a Method");
    assert_eq!(
        sym.entry_points.len(),
        1,
        "expected exactly 1 entry point for 'ServeHTTP', got {:?}",
        sym.entry_points
    );
    assert!(
        matches!(&sym.entry_points[0], EntryPoint::HttpRoute(m) if m == "ServeHTTP"),
        "expected EntryPoint::HttpRoute(\"ServeHTTP\"), got {:?}",
        sym.entry_points
    );
}

#[test]
fn entry_point_plain_function_empty() {
    // A plain function (not named `main`) → entry_points is empty.
    let src = "package main\n\nfunc process() {}\n";
    let facts = GoExtractor.extract(src, "main.go").unwrap();
    let sym = facts
        .symbols
        .iter()
        .find(|s| s.name == "process")
        .expect("symbol 'process' not found");
    assert!(
        sym.entry_points.is_empty(),
        "plain non-main function must have no entry points; got {:?}",
        sym.entry_points
    );
}

#[test]
fn entry_point_other_method_empty() {
    // A method not named ServeHTTP → entry_points is empty.
    let src = "package main\n\ntype Handler struct{}\n\nfunc (h *Handler) Other() {}\n";
    let facts = GoExtractor.extract(src, "main.go").unwrap();
    let sym = facts
        .symbols
        .iter()
        .find(|s| s.name == "Other")
        .expect("symbol 'Other' not found");
    assert!(
        sym.entry_points.is_empty(),
        "non-ServeHTTP method must have no entry points; got {:?}",
        sym.entry_points
    );
}

#[test]
fn entry_point_main_in_non_main_package_empty() {
    // `func main()` in `package foo` is an ordinary function, NOT the program
    // entry point → entry_points must be empty.
    let src = "package foo\n\nfunc main() {}\n";
    let facts = GoExtractor.extract(src, "foo.go").unwrap();
    let sym = facts
        .symbols
        .iter()
        .find(|s| s.name == "main")
        .expect("symbol 'main' not found");
    assert!(
        sym.entry_points.is_empty(),
        "func main in non-main package must have no entry points; got {:?}",
        sym.entry_points
    );
}

// ── Local-typed-call facts: binding type_name ────────────────────────────
//
// The selector-call receiver is already captured as `qualifier` by
// `CALL_QUERY` (see `selector_call_captures_package_qualifier`), so Go needs
// no receiver query — only these declared/constructed-type facts.

#[test]
fn typed_bindings_carry_type_name() {
    // Param `c Config`, pointer receiver `s *Server`, composite locals
    // `x := Foo{}` and `var y Bar`, and an inferred `z := g()` (None).
    let src = "package p\ntype Foo struct{}\ntype Bar struct{}\nfunc g() int { return 0 }\nfunc (s *Server) run(c Config) {\n\tx := Foo{}\n\tvar y Bar\n\tz := g()\n\t_ = x\n\t_ = y\n\t_ = z\n}\n";
    let facts = GoExtractor.extract(src, "src/p.go").unwrap();
    let ty = |n: &str| {
        facts
            .bindings
            .iter()
            .find(|b| b.name == n)
            .and_then(|b| b.declared_type.clone())
    };
    assert_eq!(ty("c").as_deref(), Some("Config"), "param type");
    assert_eq!(ty("s").as_deref(), Some("Server"), "pointer receiver type");
    assert_eq!(ty("x").as_deref(), Some("Foo"), "composite literal local");
    assert_eq!(ty("y").as_deref(), Some("Bar"), "var-typed local");
    assert_eq!(ty("z"), None, "call-inferred local must not guess a type");
}
