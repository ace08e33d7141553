use codegraph::extract::c::CExtractor;
use codegraph::extract::Extractor;
use codegraph::graph::types::{
    BindingKind, EntryPoint, RefRole, ScopeId, ScopeKind, SymbolKind, TypeRefContext, Visibility,
};

#[test]
fn main_function_is_entry_point() {
    let facts = CExtractor
        .extract("int main(void) { return 0; }", "src/main.c")
        .unwrap();
    let main = facts.symbols.iter().find(|s| s.name == "main").unwrap();
    assert!(
        main.entry_points
            .iter()
            .any(|e| matches!(e, EntryPoint::Main))
    );
}

#[test]
fn extracts_defs_with_visibility() {
    let src = r#"
#define MAX_LEN 256
int authenticate(const char *tok) { return validate(tok); }
static int helper(void) { return 0; }
struct Session { int id; };
enum Status { OK, FAIL };
typedef struct Session SessionRef;
int global_count;
static int private_count;
"#;
    let facts = CExtractor.extract(src, "src/auth/token.c").unwrap();
    let by_name = |n: &str| facts.symbols.iter().find(|s| s.name == n).cloned();

    // authenticate: exported function → Public
    let auth = by_name("authenticate").unwrap();
    assert_eq!(auth.kind, SymbolKind::Function);
    assert_eq!(auth.visibility, Visibility::Public);
    assert_eq!(
        auth.id.to_scip_string(),
        "codegraph . . . auth/token/authenticate()."
    );

    // helper: static function → emitted with Private visibility
    let helper = by_name("helper").unwrap();
    assert_eq!(helper.kind, SymbolKind::Function);
    assert_eq!(helper.visibility, Visibility::Private);
    assert_eq!(
        helper.id.to_scip_string(),
        "codegraph . . . auth/token/helper()."
    );

    // Session: struct definition inside a declaration
    let session = by_name("Session").unwrap();
    assert_eq!(session.kind, SymbolKind::Struct);
    assert_eq!(
        session.id.to_scip_string(),
        "codegraph . . . auth/token/Session#"
    );

    // Status: enum definition inside a declaration
    let status = by_name("Status").unwrap();
    assert_eq!(status.kind, SymbolKind::Enum);
    assert_eq!(
        status.id.to_scip_string(),
        "codegraph . . . auth/token/Status#"
    );

    // SessionRef: typedef alias
    let alias = by_name("SessionRef").unwrap();
    assert_eq!(alias.kind, SymbolKind::TypeAlias);
    assert_eq!(
        alias.id.to_scip_string(),
        "codegraph . . . auth/token/SessionRef#"
    );

    // global_count: non-static variable → Public
    let gc = by_name("global_count").unwrap();
    assert_eq!(gc.kind, SymbolKind::Static);
    assert_eq!(gc.visibility, Visibility::Public);
    assert_eq!(
        gc.id.to_scip_string(),
        "codegraph . . . auth/token/global_count."
    );

    // private_count: static variable → emitted with Private visibility
    let pc = by_name("private_count").unwrap();
    assert_eq!(pc.kind, SymbolKind::Static);
    assert_eq!(pc.visibility, Visibility::Private);
    assert_eq!(
        pc.id.to_scip_string(),
        "codegraph . . . auth/token/private_count."
    );

    // MAX_LEN: object-like macro → Const, Public
    let max = by_name("MAX_LEN").unwrap();
    assert_eq!(max.kind, SymbolKind::Const);
    assert_eq!(max.visibility, Visibility::Public);
    assert_eq!(
        max.id.to_scip_string(),
        "codegraph . . . auth/token/MAX_LEN!"
    );

    assert_eq!(facts.lang, "c");
}

#[test]
fn function_macro_and_prototype() {
    let src = r#"
#define SQUARE(x) ((x)*(x))
int compute(int n);
"#;
    let facts = CExtractor.extract(src, "src/util.h").unwrap();
    let by_name = |n: &str| facts.symbols.iter().find(|s| s.name == n).cloned();

    // SQUARE: function-like macro → Function + Descriptor::Macro
    let sq = by_name("SQUARE").unwrap();
    assert_eq!(sq.kind, SymbolKind::Function);
    assert_eq!(sq.id.to_scip_string(), "codegraph . . . util/SQUARE!");

    // compute: function prototype in a declaration
    let comp = by_name("compute").unwrap();
    assert_eq!(comp.kind, SymbolKind::Function);
    assert_eq!(comp.id.to_scip_string(), "codegraph . . . util/compute().");
}

#[test]
fn c_extracts_call_references() {
    let src = r#"
int main(void) {
    authenticate("t");
    compute(5);
}
"#;
    let facts = CExtractor.extract(src, "src/main.c").unwrap();
    let names: Vec<&str> = facts.references.iter().map(|r| r.name.as_str()).collect();
    assert!(names.contains(&"authenticate"));
    assert!(names.contains(&"compute"));
}

// ── Tier-B scope / binding tests ─────────────────────────────────────────

#[test]
fn c_func_params_emit_param_bindings() {
    // `int add(int a, int b) { return a + b; }` → Param `a`, `b` in Function scope.
    let src = "int add(int a, int b) { return a + b; }\n";
    let facts = CExtractor.extract(src, "src/math.c").unwrap();

    let fn_scope_id = facts
        .scopes
        .iter()
        .position(|s| s.kind == ScopeKind::Function)
        .expect("expected a Function scope");

    let mut param_names: Vec<(&str, ScopeId)> = facts
        .bindings
        .iter()
        .filter(|b| b.kind == BindingKind::Param)
        .map(|b| (b.name.as_str(), b.scope))
        .collect();
    param_names.sort_by_key(|(n, _)| *n);

    assert_eq!(
        param_names,
        vec![("a", fn_scope_id), ("b", fn_scope_id)],
        "expected Param bindings for a and b, got {param_names:?}"
    );
}

#[test]
fn pointer_param_emits_param_binding() {
    // `int process(int *p) { return *p; }` → Param `p` (exercises pointer_declarator unwrap).
    let src = "int process(int *p) { return *p; }\n";
    let facts = CExtractor.extract(src, "src/proc.c").unwrap();

    let p = facts
        .bindings
        .iter()
        .find(|b| b.kind == BindingKind::Param && b.name == "p")
        .expect("expected a Param binding for 'p'");
    assert_eq!(
        facts.scopes[p.scope].kind,
        ScopeKind::Function,
        "pointer param 'p' should be in a Function scope"
    );
}

#[test]
fn c_pointer_return_function_params_collected() {
    // `char *dup(const char *s)` wraps the function_declarator in a
    // pointer_declarator; params must still be reached via find_function_declarator.
    let src = "char *dup(const char *s) { return 0; }\n";
    let facts = CExtractor.extract(src, "src/dup.c").unwrap();

    let s = facts
        .bindings
        .iter()
        .find(|b| b.kind == BindingKind::Param && b.name == "s")
        .expect("pointer-return function's param 's' should be collected");
    assert_eq!(
        facts.scopes[s.scope].kind,
        ScopeKind::Function,
        "param 's' should be in a Function scope"
    );
}

#[test]
fn local_var_decl_emits_local_binding() {
    // `int f(void) { int x = 0; return x; }` → Local `x`, scope != 0.
    let src = "int f(void) { int x = 0; return x; }\n";
    let facts = CExtractor.extract(src, "src/f.c").unwrap();

    let x = facts
        .bindings
        .iter()
        .find(|b| b.kind == BindingKind::Local && b.name == "x")
        .expect("expected a Local binding for 'x'");
    assert_ne!(x.scope, 0, "local 'x' must NOT be in scope 0 (file root)");
}

#[test]
fn c_multi_declarator_emits_two_locals() {
    // `int f(void) { int a, b; return a + b; }` → Locals `a`, `b`.
    let src = "int f(void) { int a, b; return a + b; }\n";
    let facts = CExtractor.extract(src, "src/f.c").unwrap();

    let locals: Vec<&str> = facts
        .bindings
        .iter()
        .filter(|b| b.kind == BindingKind::Local)
        .map(|b| b.name.as_str())
        .collect();
    assert!(
        locals.contains(&"a"),
        "expected Local for 'a', got {locals:?}"
    );
    assert!(
        locals.contains(&"b"),
        "expected Local for 'b', got {locals:?}"
    );
}

#[test]
fn for_init_var_emits_local() {
    // `void f(void) { for (int i = 0; i < 10; i++) {} }` → Local `i`.
    let src = "void f(void) { for (int i = 0; i < 10; i++) {} }\n";
    let facts = CExtractor.extract(src, "src/f.c").unwrap();

    let i = facts
        .bindings
        .iter()
        .find(|b| b.kind == BindingKind::Local && b.name == "i")
        .expect("expected a Local binding for 'i'");
    assert_ne!(
        i.scope, 0,
        "for-init 'i' must NOT be in scope 0 (file root)"
    );
}

#[test]
fn file_scope_global_is_not_local_but_is_definition() {
    // `int global_count;\nvoid f(void) {}\n` → NO Local for `global_count`,
    // but a Definition binding exists.
    let src = "int global_count;\nvoid f(void) {}\n";
    let facts = CExtractor.extract(src, "src/g.c").unwrap();

    assert!(
        !facts
            .bindings
            .iter()
            .any(|b| b.kind == BindingKind::Local && b.name == "global_count"),
        "global_count must NOT be a Local binding"
    );
    assert!(
        facts
            .bindings
            .iter()
            .any(|b| b.kind == BindingKind::Definition && b.name == "global_count"),
        "global_count must have a Definition binding"
    );
}

#[test]
fn nesting_produces_correct_scope_tree() {
    // `void f(void) { { ; } }` → exactly 3 scopes: Module(0), Function, Block(parent=Function).
    // The body compound_statement must NOT double-open.
    let src = "void f(void) { { ; } }\n";
    let facts = CExtractor.extract(src, "src/f.c").unwrap();

    assert_eq!(facts.scopes.len(), 3, "expected exactly 3 scopes");
    assert_eq!(facts.scopes[0].kind, ScopeKind::Module);

    let fn_scope_id = facts
        .scopes
        .iter()
        .position(|s| s.kind == ScopeKind::Function)
        .expect("expected a Function scope");
    let block_scope_id = facts
        .scopes
        .iter()
        .position(|s| s.kind == ScopeKind::Block)
        .expect("expected a Block scope");

    assert_eq!(
        facts.scopes[block_scope_id].parent,
        Some(fn_scope_id),
        "Block scope parent should be the Function scope"
    );
}

#[test]
fn top_level_non_static_func_emits_definition_binding() {
    // `int helper(void) { return 0; }` → Definition binding `helper` at scope 0.
    let src = "int helper(void) { return 0; }\n";
    let facts = CExtractor.extract(src, "src/h.c").unwrap();

    let b = facts
        .bindings
        .iter()
        .find(|b| b.kind == BindingKind::Definition && b.name == "helper")
        .expect("expected a Definition binding for 'helper'");
    assert_eq!(b.scope, 0, "top-level def must bind in scope 0");
}

#[test]
fn static_func_emits_definition_binding_with_private_visibility() {
    // `static int helper(void) { return 0; }` → symbol emitted with Private
    // visibility AND a Definition binding in scope 0 (internal linkage, still
    // a real name in the file).
    let src = "static int helper(void) { return 0; }\n";
    let facts = CExtractor.extract(src, "src/h.c").unwrap();

    let sym = facts
        .symbols
        .iter()
        .find(|s| s.name == "helper")
        .expect("static 'helper' must be emitted as a symbol");
    assert_eq!(
        sym.visibility,
        Visibility::Private,
        "static function must have Private visibility"
    );

    let b = facts
        .bindings
        .iter()
        .find(|b| b.kind == BindingKind::Definition && b.name == "helper")
        .expect("static 'helper' must produce a Definition binding");
    assert_eq!(b.scope, 0, "Definition binding must be in scope 0");
}

#[test]
fn non_static_func_has_public_visibility() {
    // `int greet(void) { return 0; }` — no static specifier → external linkage
    // → Visibility::Public.
    let src = "int greet(void) { return 0; }\n";
    let facts = CExtractor.extract(src, "src/vis.c").unwrap();
    let sym = facts
        .symbols
        .iter()
        .find(|s| s.name == "greet")
        .expect("'greet' must be emitted");
    assert_eq!(
        sym.visibility,
        Visibility::Public,
        "non-static function must have Public visibility"
    );
}

#[test]
fn static_func_has_private_visibility() {
    // `static int internal_fn(void) { return 0; }` — static storage-class
    // → internal linkage → Visibility::Private, but symbol IS emitted.
    let src = "static int internal_fn(void) { return 0; }\n";
    let facts = CExtractor.extract(src, "src/vis.c").unwrap();
    let sym = facts
        .symbols
        .iter()
        .find(|s| s.name == "internal_fn")
        .expect("static 'internal_fn' must be emitted");
    assert_eq!(
        sym.visibility,
        Visibility::Private,
        "static function must have Private visibility"
    );
}

#[test]
fn void_param_skipped() {
    // `int f(void) { return 0; }` → zero Param bindings (void is not a named param).
    let src = "int f(void) { return 0; }\n";
    let facts = CExtractor.extract(src, "src/f.c").unwrap();

    let params: Vec<&str> = facts
        .bindings
        .iter()
        .filter(|b| b.kind == BindingKind::Param)
        .map(|b| b.name.as_str())
        .collect();
    assert!(
        params.is_empty(),
        "expected zero Param bindings for (void), got {params:?}"
    );
}

#[test]
fn c_same_file_call_ref_has_non_zero_scope_and_callee_has_definition() {
    // Two non-static funcs where one calls the other.
    // Assert: Definition binding for callee exists AND the call Reference has scope == Some(non-zero).
    let src = "int helper(void) { return 0; }\nint caller(void) { return helper(); }\n";
    let facts = CExtractor.extract(src, "src/pair.c").unwrap();

    // Definition binding for `helper` must exist.
    assert!(
        facts
            .bindings
            .iter()
            .any(|b| b.kind == BindingKind::Definition && b.name == "helper"),
        "expected a Definition binding for 'helper'"
    );

    // The `helper()` call reference must have a non-zero (non-module) scope.
    let call_ref = facts
        .references
        .iter()
        .find(|r| r.role == RefRole::Call && r.name == "helper")
        .expect("expected a Call ref for 'helper'");
    assert!(
        call_ref.scope.is_some() && call_ref.scope != Some(0),
        "helper() call ref must be in a non-zero scope, got {:?}",
        call_ref.scope
    );
}

// ── Edge richness: Read / Write ──────────────────────────────────────────

#[test]
fn read_at_use_not_at_decl() {
    // `int f(void) { int base = 1; return base; }`
    // → Read ref for the `base` in `return base`, NOT at the declarator.
    let src = "int f(void) { int base = 1; return base; }\n";
    let facts = CExtractor.extract(src, "src/r.c").unwrap();
    let read_refs: Vec<_> = facts
        .references
        .iter()
        .filter(|r| r.role == RefRole::Read && r.name == "base")
        .collect();
    assert!(
        !read_refs.is_empty(),
        "expected at least one Read ref for 'base', got none — all refs: {:?}",
        facts
            .references
            .iter()
            .map(|r| (&r.name, r.role))
            .collect::<Vec<_>>()
    );
    // `int base = 1;` spans the start of the body; `return base` is later.
    // The declarator identifier sits early; the read must be after the `=`.
    // In the snippet the `return` keyword is at byte ~36; verify use-site byte.
    let use_ref = read_refs
        .iter()
        .find(|r| r.occ.byte > 20)
        .expect("Read ref for 'base' should be at the return site (byte > 20)");
    assert!(
        use_ref.occ.byte > 20,
        "Read ref byte {} should be in the return stmt, not the declarator",
        use_ref.occ.byte
    );
}

#[test]
fn c_write_ref_emitted_for_assignment() {
    // `void f(void) { int cnt = 0; cnt = 5; }` → Write ref for `cnt = 5`.
    let src = "void f(void) { int cnt = 0; cnt = 5; }\n";
    let facts = CExtractor.extract(src, "src/w.c").unwrap();
    let write_refs: Vec<_> = facts
        .references
        .iter()
        .filter(|r| r.role == RefRole::Write && r.name == "cnt")
        .collect();
    assert!(
        !write_refs.is_empty(),
        "expected at least one Write ref for 'cnt', got none — all refs: {:?}",
        facts
            .references
            .iter()
            .map(|r| (&r.name, r.role))
            .collect::<Vec<_>>()
    );
}

#[test]
fn c_call_not_also_read() {
    // `void f(void) { helper(); }` → Call ref for "helper", but NOT also Read.
    let src = "void f(void) { helper(); }\n";
    let facts = CExtractor.extract(src, "src/nd.c").unwrap();
    let call_refs: Vec<_> = facts
        .references
        .iter()
        .filter(|r| r.role == RefRole::Call && r.name == "helper")
        .collect();
    assert!(!call_refs.is_empty(), "expected a Call ref for 'helper'");
    let read_refs: Vec<_> = facts
        .references
        .iter()
        .filter(|r| r.role == RefRole::Read && r.name == "helper")
        .collect();
    assert!(
        read_refs.is_empty(),
        "helper() must NOT produce a Read ref; got: {read_refs:?}"
    );
}

#[test]
fn field_access_ptr_is_read_field_is_not() {
    // `int f(struct S *ptr) { return ptr->field; }`
    // → Read ref for `ptr` (the struct pointer), NO Read ref for `field`
    //   (a `field_identifier`, not an `identifier`).
    let src = "struct S { int val; };\nint f(struct S *ptr) { return ptr->val; }\n";
    let facts = CExtractor.extract(src, "src/fa.c").unwrap();
    // `ptr` is used as a read (RHS of `->`)
    let ptr_reads: Vec<_> = facts
        .references
        .iter()
        .filter(|r| r.role == RefRole::Read && r.name == "ptr")
        .collect();
    assert!(
        !ptr_reads.is_empty(),
        "expected a Read ref for 'ptr', got none — all refs: {:?}",
        facts
            .references
            .iter()
            .map(|r| (&r.name, r.role))
            .collect::<Vec<_>>()
    );
    // `val` is a field_identifier, not an identifier — must not appear as Read.
    let val_reads: Vec<_> = facts
        .references
        .iter()
        .filter(|r| r.role == RefRole::Read && r.name == "val")
        .collect();
    assert!(
        val_reads.is_empty(),
        "field 'val' in field_expression must NOT produce a Read ref; got: {val_reads:?}"
    );
}

// ── TypeRef tests ────────────────────────────────────────────────────────

#[test]
fn typeref_param_type_emitted() {
    // `void f(Config c) {}` — `Config` is a type_identifier (typedef'd user type)
    // → TypeRef "Config" with ParameterType context.
    let src = "void f(Config c) {}\n";
    let facts = CExtractor.extract(src, "src/tr.c").unwrap();
    let r = facts
        .references
        .iter()
        .find(|r| r.role == RefRole::TypeRef && r.name == "Config")
        .unwrap_or_else(|| {
            panic!(
                "expected TypeRef for 'Config', got refs: {:?}",
                facts
                    .references
                    .iter()
                    .map(|r| (&r.name, r.role, r.type_ref_ctx))
                    .collect::<Vec<_>>()
            )
        });
    assert_eq!(
        r.type_ref_ctx,
        Some(TypeRefContext::ParameterType),
        "expected ParameterType ctx, got {:?}",
        r.type_ref_ctx
    );
}

#[test]
fn typeref_return_type_emitted() {
    // `Config make(void) { ... }` — `Config` as return type
    // → TypeRef "Config" with ReturnType context.
    let src = "Config make(void) { Config c; return c; }\n";
    let facts = CExtractor.extract(src, "src/tr.c").unwrap();
    let type_refs: Vec<_> = facts
        .references
        .iter()
        .filter(|r| r.role == RefRole::TypeRef && r.name == "Config")
        .collect();
    let ret_ref = type_refs
        .iter()
        .find(|r| r.type_ref_ctx == Some(TypeRefContext::ReturnType))
        .unwrap_or_else(|| {
            panic!(
                "expected TypeRef 'Config' with ReturnType, got: {:?}",
                type_refs.iter().map(|r| r.type_ref_ctx).collect::<Vec<_>>()
            )
        });
    assert_eq!(ret_ref.type_ref_ctx, Some(TypeRefContext::ReturnType));
}

#[test]
fn typeref_field_type_emitted() {
    // `struct T { Config conf; };` — `Config` as struct field type
    // → TypeRef "Config" with Field context.
    let src = "struct T { Config conf; };\n";
    let facts = CExtractor.extract(src, "src/tr.c").unwrap();
    let r = facts
        .references
        .iter()
        .find(|r| r.role == RefRole::TypeRef && r.name == "Config")
        .unwrap_or_else(|| {
            panic!(
                "expected TypeRef for 'Config' field, got refs: {:?}",
                facts
                    .references
                    .iter()
                    .map(|r| (&r.name, r.role, r.type_ref_ctx))
                    .collect::<Vec<_>>()
            )
        });
    assert_eq!(
        r.type_ref_ctx,
        Some(TypeRefContext::Field),
        "expected Field ctx, got {:?}",
        r.type_ref_ctx
    );
}

#[test]
fn typeref_primitive_param_not_emitted() {
    // `void f(int n) {}` — `int` is a primitive_type → must NOT produce a TypeRef.
    let src = "void f(int n) {}\n";
    let facts = CExtractor.extract(src, "src/tr.c").unwrap();
    let type_refs: Vec<_> = facts
        .references
        .iter()
        .filter(|r| r.role == RefRole::TypeRef && r.name == "int")
        .collect();
    assert!(
        type_refs.is_empty(),
        "primitive 'int' must NOT produce a TypeRef; got: {type_refs:?}"
    );
}
