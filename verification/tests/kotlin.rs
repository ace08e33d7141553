use codegraph::extract::kotlin::KotlinExtractor;
use codegraph::extract::{Extractor, module_symbol};
use codegraph::graph::types::{
    BindingKind, EntryPoint, FileFacts, RefRole, ScopeId, ScopeKind, Symbol, SymbolKind,
    TypeRefContext, Visibility,
};
use codegraph::lang::Language;

fn extract(src: &str, path: &str) -> FileFacts {
    KotlinExtractor.extract(src, path).unwrap()
}

fn by_name(facts: &FileFacts, name: &str) -> Option<Symbol> {
    facts.symbols.iter().find(|s| s.name == name).cloned()
}

#[test]
fn top_level_main_is_entry_point() {
    let facts = extract("fun main() {}", "src/main.kt");
    let main = by_name(&facts, "main").unwrap();
    assert!(
        main.entry_points
            .iter()
            .any(|e| matches!(e, EntryPoint::Main))
    );
}

#[test]
fn kotlin_method_main_is_not_entry_point() {
    let facts = extract("class App { fun main() {} }", "src/app.kt");
    let main = by_name(&facts, "main").unwrap();
    assert!(
        !main
            .entry_points
            .iter()
            .any(|e| matches!(e, EntryPoint::Main))
    );
}

// Test 1: class with public fun + private fun; all emit with correct Visibility.
#[test]
fn class_visibility_all_emit() {
    let src = r#"package com.ex
class Session {
    fun open() {}
    private fun secret() {}
}
"#;
    let facts = extract(src, "src/com/ex/Session.kt");

    let session = by_name(&facts, "Session").unwrap();
    assert_eq!(session.kind, SymbolKind::Class);
    assert_eq!(session.visibility, Visibility::Public);
    assert_eq!(
        session.id.to_scip_string(),
        "codegraph . . . com/ex/Session#"
    );

    let open = by_name(&facts, "open").unwrap();
    assert_eq!(open.kind, SymbolKind::Method);
    assert_eq!(open.visibility, Visibility::Public);
    assert_eq!(
        open.id.to_scip_string(),
        "codegraph . . . com/ex/Session#open()."
    );

    // private method MUST be emitted, tagged Private
    let secret = by_name(&facts, "secret").expect("private method 'secret' must be emitted");
    assert_eq!(secret.kind, SymbolKind::Method);
    assert_eq!(
        secret.visibility,
        Visibility::Private,
        "private fun must have Visibility::Private"
    );
    assert_eq!(
        secret.id.to_scip_string(),
        "codegraph . . . com/ex/Session#secret()."
    );
}

// Test 2: interface → SymbolKind::Interface
#[test]
fn interface_kind() {
    let src = r#"package com.ex
interface Readable {
    fun read(): String
}
"#;
    let facts = extract(src, "src/com/ex/Readable.kt");

    let readable = by_name(&facts, "Readable").unwrap();
    assert_eq!(readable.kind, SymbolKind::Interface);
    assert_eq!(
        readable.id.to_scip_string(),
        "codegraph . . . com/ex/Readable#"
    );
}

// Test 3: enum class with entries → Enum + Const
#[test]
fn enum_class_with_entries() {
    let src = r#"package com.ex
enum class Direction {
    NORTH,
    SOUTH,
    EAST,
    WEST
}
"#;
    let facts = extract(src, "src/com/ex/Direction.kt");

    let dir = by_name(&facts, "Direction").unwrap();
    assert_eq!(dir.kind, SymbolKind::Enum);
    assert_eq!(dir.id.to_scip_string(), "codegraph . . . com/ex/Direction#");

    for entry in &["NORTH", "SOUTH", "EAST", "WEST"] {
        let sym = by_name(&facts, entry).unwrap();
        assert_eq!(sym.kind, SymbolKind::Const);
        assert_eq!(
            sym.id.to_scip_string(),
            format!("codegraph . . . com/ex/Direction#{entry}.")
        );
    }
}

// Test 4: object declaration → SymbolKind::Class (singleton)
#[test]
fn object_singleton() {
    let src = r#"package com.ex
object Registry {
    fun register() {}
}
"#;
    let facts = extract(src, "src/com/ex/Registry.kt");

    let reg = by_name(&facts, "Registry").unwrap();
    assert_eq!(reg.kind, SymbolKind::Class);
    assert_eq!(reg.id.to_scip_string(), "codegraph . . . com/ex/Registry#");

    let register = by_name(&facts, "register").unwrap();
    assert_eq!(register.kind, SymbolKind::Method);
    assert_eq!(
        register.id.to_scip_string(),
        "codegraph . . . com/ex/Registry#register()."
    );
}

// Test 5: val → Const, var → Static
#[test]
fn val_and_var_properties() {
    let src = r#"package com.ex
class Config {
    val maxRetries: Int = 3
    var timeout: Long = 5000
}
"#;
    let facts = extract(src, "src/com/ex/Config.kt");

    let max = by_name(&facts, "maxRetries").unwrap();
    assert_eq!(max.kind, SymbolKind::Const);
    assert_eq!(
        max.id.to_scip_string(),
        "codegraph . . . com/ex/Config#maxRetries."
    );

    let timeout = by_name(&facts, "timeout").unwrap();
    assert_eq!(timeout.kind, SymbolKind::Static);
    assert_eq!(
        timeout.id.to_scip_string(),
        "codegraph . . . com/ex/Config#timeout."
    );
}

// Test 6: top-level fun → SymbolKind::Function under namespace
#[test]
fn top_level_function() {
    let src = r#"package com.ex
fun greet(name: String): String {
    return "Hello $name"
}
"#;
    let facts = extract(src, "src/com/ex/Greeting.kt");

    let greet = by_name(&facts, "greet").unwrap();
    assert_eq!(greet.kind, SymbolKind::Function);
    assert_eq!(greet.id.to_scip_string(), "codegraph . . . com/ex/greet().");
}

// Test 7: typealias → SymbolKind::TypeAlias (name from `type` field)
#[test]
fn type_alias() {
    let src = r#"package com.ex
typealias StringList = List<String>
"#;
    let facts = extract(src, "src/com/ex/Aliases.kt");

    let alias = by_name(&facts, "StringList").unwrap();
    assert_eq!(alias.kind, SymbolKind::TypeAlias);
    assert_eq!(
        alias.id.to_scip_string(),
        "codegraph . . . com/ex/StringList#"
    );
}

// Test 8: call references captured (free call + member call)
#[test]
fn call_references_captured() {
    let src = r#"package com.ex
fun main() {
    foo()
    val x = SomeClass()
    x.bar()
}
"#;
    let facts = extract(src, "src/com/ex/Main.kt");
    let names: Vec<&str> = facts.references.iter().map(|r| r.name.as_str()).collect();
    assert!(names.contains(&"foo"), "expected 'foo' in {names:?}");
    assert!(names.contains(&"bar"), "expected 'bar' in {names:?}");
}

#[test]
fn lang_tag() {
    let facts = extract("fun foo() {}", "src/Foo.kt");
    assert_eq!(facts.lang, "kotlin");
}

// Test 10: class with superclass call + interface → both Inherit refs
#[test]
fn class_inherits_base_and_interface() {
    let src = "class Sub : Base(), Iface { }";
    let facts = extract(src, "src/Sub.kt");
    let inherit_names: Vec<&str> = facts
        .references
        .iter()
        .filter(|r| r.role == RefRole::IsImplementation)
        .map(|r| r.name.as_str())
        .collect();
    assert!(
        inherit_names.contains(&"Base"),
        "expected 'Base' in {inherit_names:?}"
    );
    assert!(
        inherit_names.contains(&"Iface"),
        "expected 'Iface' in {inherit_names:?}"
    );
}

// Test 11: dotted parent name → leaf only
#[test]
fn class_inherits_dotted_name_simplified() {
    let src = "class C : com.x.Base() { }";
    let facts = extract(src, "src/C.kt");
    let inherit_names: Vec<&str> = facts
        .references
        .iter()
        .filter(|r| r.role == RefRole::IsImplementation)
        .map(|r| r.name.as_str())
        .collect();
    assert!(
        inherit_names.contains(&"Base"),
        "expected 'Base' in {inherit_names:?}"
    );
}

// Test 12: object declaration inherits interface → Inherit ref
#[test]
fn object_inherits_service() {
    let src = "object O : Service { }";
    let facts = extract(src, "src/O.kt");
    let inherit_names: Vec<&str> = facts
        .references
        .iter()
        .filter(|r| r.role == RefRole::IsImplementation)
        .map(|r| r.name.as_str())
        .collect();
    assert!(
        inherit_names.contains(&"Service"),
        "expected 'Service' in {inherit_names:?}"
    );
}

// Test 13: qualified import → Import ref with leaf name only
#[test]
fn import_qualified_emits_leaf() {
    let src = "import com.example.Service\nclass C";
    let facts = extract(src, "src/C.kt");
    let import_names: Vec<&str> = facts
        .references
        .iter()
        .filter(|r| r.role == RefRole::Import)
        .map(|r| r.name.as_str())
        .collect();
    assert_eq!(
        import_names,
        vec!["Service"],
        "expected exactly ['Service'], got {import_names:?}"
    );
}

// Test 14: simple (unqualified) import → Import ref
#[test]
fn import_simple_emits_name() {
    let src = "import Foo\nclass C";
    let facts = extract(src, "src/C.kt");
    let import_names: Vec<&str> = facts
        .references
        .iter()
        .filter(|r| r.role == RefRole::Import)
        .map(|r| r.name.as_str())
        .collect();
    assert_eq!(
        import_names,
        vec!["Foo"],
        "expected exactly ['Foo'], got {import_names:?}"
    );
}

// Test 15: wildcard import → NO Import refs
#[test]
fn import_wildcard_skipped() {
    let src = "import com.example.*\nclass C";
    let facts = extract(src, "src/C.kt");
    let import_refs: Vec<&str> = facts
        .references
        .iter()
        .filter(|r| r.role == RefRole::Import)
        .map(|r| r.name.as_str())
        .collect();
    assert!(
        import_refs.is_empty(),
        "expected no Import refs for wildcard, got {import_refs:?}"
    );
}

// ── Tier-B scope / binding tests ─────────────────────────────────────────

// Test B1: function params → Param bindings in a Function scope.
#[test]
fn kotlin_func_params_emit_param_bindings() {
    let src = "fun f(a: Int, b: String) {}";
    let facts = extract(src, "src/F.kt");

    let fn_scope_id = facts
        .scopes
        .iter()
        .position(|s| s.kind == ScopeKind::Function)
        .expect("expected a Function scope");

    let mut param_names: Vec<(&str, ScopeId)> = facts
        .bindings
        .iter()
        .filter(|b| b.kind == BindingKind::Param)
        .map(|b| (b.name.as_str(), b.scope))
        .collect();
    param_names.sort_by_key(|(n, _)| *n);

    assert_eq!(
        param_names,
        vec![("a", fn_scope_id), ("b", fn_scope_id)],
        "expected Param bindings for a and b, got {param_names:?}"
    );
}

// Test B2: local val inside function → Local binding in Function scope.
#[test]
fn local_val_emits_local_binding() {
    let src = "fun f() { val x = 1 }";
    let facts = extract(src, "src/F.kt");

    let x = facts
        .bindings
        .iter()
        .find(|b| b.kind == BindingKind::Local && b.name == "x")
        .expect("expected a Local binding for 'x'");
    assert!(
        matches!(
            facts.scopes[x.scope].kind,
            ScopeKind::Function | ScopeKind::Block
        ),
        "x should be in a Function or Block scope, got {:?}",
        facts.scopes[x.scope].kind
    );
}

// Test B3: local var inside function → Local binding.
#[test]
fn kotlin_local_var_emits_local_binding() {
    let src = "fun f() { var y = 2 }";
    let facts = extract(src, "src/F.kt");

    let y = facts
        .bindings
        .iter()
        .find(|b| b.kind == BindingKind::Local && b.name == "y")
        .expect("expected a Local binding for 'y'");
    assert!(
        matches!(
            facts.scopes[y.scope].kind,
            ScopeKind::Function | ScopeKind::Block
        ),
        "y should be in a Function or Block scope, got {:?}",
        facts.scopes[y.scope].kind
    );
}

// Test B4: for-loop variable → Local binding.
#[test]
fn for_loop_var_emits_local_binding() {
    let src = "fun f(xs: List<Int>) { for (x in xs) {} }";
    let facts = extract(src, "src/F.kt");

    let x = facts
        .bindings
        .iter()
        .find(|b| b.kind == BindingKind::Local && b.name == "x")
        .expect("expected a Local binding for for-loop 'x'");
    assert!(
        matches!(
            facts.scopes[x.scope].kind,
            ScopeKind::Function | ScopeKind::Block
        ),
        "for-loop x should be in a Function or Block scope, got {:?}",
        facts.scopes[x.scope].kind
    );
}

// Test B4b: typed local val → Local binding with type_name = Some("Repo").
#[test]
fn typed_local_val_carries_type_name() {
    let src = "fun f() { val r: Repo = Repo() }";
    let facts = extract(src, "src/F.kt");

    let r = facts
        .bindings
        .iter()
        .find(|b| b.kind == BindingKind::Local && b.name == "r")
        .expect("expected a Local binding for 'r'");
    assert_eq!(r.declared_type.as_deref(), Some("Repo"));
}

// Test B4c: constructor-inferred local val (`val r = Repo()`, no annotation)
// → Local binding with type_name = Some("Repo").
#[test]
fn constructor_inferred_local_val_carries_type_name() {
    let src = "fun f() { val r = Repo() }";
    let facts = extract(src, "src/F.kt");

    let r = facts
        .bindings
        .iter()
        .find(|b| b.kind == BindingKind::Local && b.name == "r")
        .expect("expected a Local binding for 'r'");
    assert_eq!(r.declared_type.as_deref(), Some("Repo"));
}

// Test B4d: untyped/uninferable local (`val x = 1`) → type_name = None.
#[test]
fn untyped_local_val_has_no_type_name() {
    let src = "fun f() { val x = 1 }";
    let facts = extract(src, "src/F.kt");

    let x = facts
        .bindings
        .iter()
        .find(|b| b.kind == BindingKind::Local && b.name == "x")
        .expect("expected a Local binding for 'x'");
    assert_eq!(x.declared_type, None);
}

// Test B4e: typed parameter → Param binding with type_name = Some("Repo").
#[test]
fn kotlin_typed_param_carries_type_name() {
    let src = "fun f(r: Repo) {}";
    let facts = extract(src, "src/F.kt");

    let r = facts
        .bindings
        .iter()
        .find(|b| b.kind == BindingKind::Param && b.name == "r")
        .expect("expected a Param binding for 'r'");
    assert_eq!(r.declared_type.as_deref(), Some("Repo"));
}

// Test B5: class property is NOT a Local but IS a Definition.
#[test]
fn class_property_not_local_but_is_definition() {
    let src = "class C { val count: Int = 0 }";
    let facts = extract(src, "src/C.kt");

    assert!(
        !facts
            .bindings
            .iter()
            .any(|b| b.kind == BindingKind::Local && b.name == "count"),
        "class property 'count' must NOT be a Local binding"
    );
    assert!(
        facts
            .bindings
            .iter()
            .any(|b| b.kind == BindingKind::Definition && b.name == "count"),
        "class property 'count' must have a Definition binding"
    );
}

// Test B6: nested class+fun produces Module → Type → Function scope chain.
#[test]
fn nested_class_fun_scope_chain() {
    let src = "class C { fun f() {} }";
    let facts = extract(src, "src/C.kt");

    assert_eq!(
        facts.scopes[0].kind,
        ScopeKind::Module,
        "scopes[0] must be Module"
    );

    let type_scope_id = facts
        .scopes
        .iter()
        .position(|s| s.kind == ScopeKind::Type)
        .expect("expected a Type scope");
    let fn_scope_id = facts
        .scopes
        .iter()
        .position(|s| s.kind == ScopeKind::Function)
        .expect("expected a Function scope");

    assert_eq!(
        facts.scopes[type_scope_id].parent,
        Some(0),
        "Type scope parent should be Module (0)"
    );
    assert_eq!(
        facts.scopes[fn_scope_id].parent,
        Some(type_scope_id),
        "Function scope parent should be the Type scope"
    );
}

// Test B7: lambda params → Param binding in a Function scope (the lambda's).
#[test]
fn kotlin_lambda_params_emit_param_bindings() {
    let src = "fun f() { val g = { a: Int -> a + 1 } }";
    let facts = extract(src, "src/F.kt");

    let a = facts
        .bindings
        .iter()
        .find(|b| b.kind == BindingKind::Param && b.name == "a")
        .expect("expected a Param binding for lambda param 'a'");
    assert_eq!(
        facts.scopes[a.scope].kind,
        ScopeKind::Function,
        "lambda param 'a' should be in a Function scope"
    );
}

// Test B8: object declaration with method → Type scope + nested Function scope.
#[test]
fn object_members_produce_type_and_function_scopes() {
    let src = "object Reg { fun get() {} }";
    let facts = extract(src, "src/Reg.kt");

    let type_scope_id = facts
        .scopes
        .iter()
        .position(|s| s.kind == ScopeKind::Type)
        .expect("expected a Type scope for the object");
    let fn_scope_id = facts
        .scopes
        .iter()
        .position(|s| s.kind == ScopeKind::Function)
        .expect("expected a Function scope for the method");

    assert_eq!(
        facts.scopes[type_scope_id].parent,
        Some(0),
        "object Type scope should be nested under Module"
    );
    assert_eq!(
        facts.scopes[fn_scope_id].parent,
        Some(type_scope_id),
        "method Function scope should be nested under the Type scope"
    );
}

// Test B9: same-file call ref has scope attached (non-zero = innermost scope).
#[test]
fn same_file_call_ref_has_scope() {
    let src = "fun greet() {}\nfun main() { greet() }";
    let facts = extract(src, "src/Greet.kt");

    // greet should be defined
    assert!(
        by_name(&facts, "greet").is_some(),
        "expected 'greet' Definition"
    );

    // The greet() call reference should have scope set to Some(non-zero).
    let greet_ref = facts
        .references
        .iter()
        .find(|r| r.role == RefRole::Call && r.name == "greet")
        .expect("expected a Call ref for 'greet'");
    assert!(
        greet_ref.scope.is_some() && greet_ref.scope != Some(0),
        "greet() call ref should be in a non-root scope, got {:?}",
        greet_ref.scope
    );
}

// Test B10: import binding.
#[test]
fn import_emits_import_binding() {
    let src = "import com.example.Service\nclass C";
    let facts = extract(src, "src/C.kt");

    assert!(
        facts
            .bindings
            .iter()
            .any(|b| b.kind == BindingKind::Import && b.name == "Service"),
        "expected an Import binding named 'Service', got {:?}",
        facts
            .bindings
            .iter()
            .filter(|b| b.kind == BindingKind::Import)
            .map(|b| b.name.as_str())
            .collect::<Vec<_>>()
    );
}

// ── TypeRef tests ─────────────────────────────────────────────────────────

// Test T1: function parameter type → TypeRef "Config" with ParameterType ctx.
#[test]
fn type_ref_param_type_emitted() {
    let src = "fun f(c: Config) {}";
    let facts = extract(src, "src/F.kt");
    let r = facts
        .references
        .iter()
        .find(|r| r.role == RefRole::TypeRef && r.name == "Config")
        .expect("expected TypeRef ref for 'Config'");
    assert_eq!(
        r.type_ref_ctx,
        Some(TypeRefContext::ParameterType),
        "expected ParameterType ctx, got {:?}",
        r.type_ref_ctx
    );
}

// Test T2: property/field type → TypeRef "Config" with Field ctx.
#[test]
fn type_ref_field_type_emitted() {
    let src = "class C { val conf: Config = null }";
    let facts = extract(src, "src/C.kt");
    let r = facts
        .references
        .iter()
        .find(|r| r.role == RefRole::TypeRef && r.name == "Config")
        .expect("expected TypeRef ref for 'Config'");
    assert_eq!(
        r.type_ref_ctx,
        Some(TypeRefContext::Field),
        "expected Field ctx, got {:?}",
        r.type_ref_ctx
    );
}

// Test T3: generic param type → TypeRef "List" (ParameterType) + "Config" (GenericArg).
#[test]
fn type_ref_generic_param_emitted() {
    let src = "fun f(xs: List<Config>) {}";
    let facts = extract(src, "src/F.kt");
    let list_ref = facts
        .references
        .iter()
        .find(|r| r.role == RefRole::TypeRef && r.name == "List")
        .expect("expected TypeRef ref for 'List'");
    assert_eq!(
        list_ref.type_ref_ctx,
        Some(TypeRefContext::ParameterType),
        "expected ParameterType ctx for 'List', got {:?}",
        list_ref.type_ref_ctx
    );
    let config_ref = facts
        .references
        .iter()
        .find(|r| r.role == RefRole::TypeRef && r.name == "Config")
        .expect("expected TypeRef ref for 'Config'");
    assert_eq!(
        config_ref.type_ref_ctx,
        Some(TypeRefContext::GenericArg),
        "expected GenericArg ctx for 'Config', got {:?}",
        config_ref.type_ref_ctx
    );
}

// Test T4: function return type → TypeRef "Config" with ReturnType ctx.
#[test]
fn type_ref_return_type_emitted() {
    let src = "fun f(): Config = TODO()";
    let facts = extract(src, "src/F.kt");
    let r = facts
        .references
        .iter()
        .find(|r| r.role == RefRole::TypeRef && r.name == "Config")
        .expect("expected TypeRef ref for 'Config'");
    assert_eq!(
        r.type_ref_ctx,
        Some(TypeRefContext::ReturnType),
        "expected ReturnType ctx, got {:?}",
        r.type_ref_ctx
    );
}

// ── Edge richness: Read / Write tests ────────────────────────────────────

// Test R1: read at use site — `return base` emits Read for "base"; the
// declaration `val base = 1` must NOT emit a Read for "base".
#[test]
fn read_at_use_not_declaration() {
    let src = "fun f(): Int { val base = 1; return base }";
    let facts = extract(src, "src/F.kt");
    let read_refs: Vec<_> = facts
        .references
        .iter()
        .filter(|r| r.role == RefRole::Read && r.name == "base")
        .collect();
    assert!(
        !read_refs.is_empty(),
        "expected at least one Read ref for 'base', got none"
    );
    // The use in `return base` is at a higher byte offset than the `val base` decl.
    // In "fun f(): Int { val base = 1; return base }" the `return` starts after byte 30.
    let use_ref = read_refs
        .iter()
        .find(|r| r.occ.byte > 30)
        .expect("Read ref for 'base' should be at the return site (byte > 30)");
    assert!(
        use_ref.occ.byte > 30,
        "Read ref should be at the use site, not the declaration"
    );
}

// Test R2: write — `cnt = 5` emits Write "cnt"; the declaration `var cnt = 0` must not.
#[test]
fn write_emitted_for_assignment() {
    let src = "fun f() { var cnt = 0; cnt = 5 }";
    let facts = extract(src, "src/F.kt");
    let write_refs: Vec<_> = facts
        .references
        .iter()
        .filter(|r| r.role == RefRole::Write && r.name == "cnt")
        .collect();
    assert!(
        !write_refs.is_empty(),
        "expected at least one Write ref for 'cnt', got none — all refs: {:?}",
        facts
            .references
            .iter()
            .map(|r| (&r.name, r.role))
            .collect::<Vec<_>>()
    );
}

// Test R3: call callee must NOT also be a Read.
#[test]
fn kotlin_call_not_also_read() {
    let src = "fun f() { helper() }";
    let facts = extract(src, "src/F.kt");
    let call_refs: Vec<_> = facts
        .references
        .iter()
        .filter(|r| r.role == RefRole::Call && r.name == "helper")
        .collect();
    assert!(!call_refs.is_empty(), "expected a Call ref for 'helper'");
    let read_refs: Vec<_> = facts
        .references
        .iter()
        .filter(|r| r.role == RefRole::Read && r.name == "helper")
        .collect();
    assert!(
        read_refs.is_empty(),
        "helper() must NOT produce a Read ref; got: {read_refs:?}"
    );
}

// Test R4: navigation member must NOT be a Read; receiver must be a Read.
#[test]
fn navigation_member_not_read_receiver_is_read() {
    // `use(obj.field)` — `obj` is a Read (receiver), `field` is NOT a Read.
    let src = "fun f(obj: C) { use(obj.field) }";
    let facts = extract(src, "src/F.kt");
    let field_reads: Vec<_> = facts
        .references
        .iter()
        .filter(|r| r.role == RefRole::Read && r.name == "field")
        .collect();
    assert!(
        field_reads.is_empty(),
        "member 'field' in navigation expression must NOT be a Read ref; got: {field_reads:?}"
    );
    // `obj` is the receiver — it should be a Read.
    let obj_reads: Vec<_> = facts
        .references
        .iter()
        .filter(|r| r.role == RefRole::Read && r.name == "obj")
        .collect();
    assert!(
        !obj_reads.is_empty(),
        "receiver 'obj' should be a Read ref; got none"
    );
}

#[test]
fn qualified_call_captures_receiver_as_qualifier() {
    // `Service.helper()` is ONE call to `helper` qualified by its receiver
    // `Service`, not two bare calls. The receiver must NOT also be emitted as
    // a Call (it is not invoked); the member must carry the qualifier so the
    // resolver can follow it to the receiver's type.
    let src = "fun run(): Int { return Service.helper() }\n";
    let facts = extract(src, "src/com/ex/Main.kt");

    let call_refs: Vec<_> = facts
        .references
        .iter()
        .filter(|r| r.role == RefRole::Call)
        .collect();
    let helper = call_refs
        .iter()
        .find(|r| r.name == "helper")
        .expect("expected a Call ref for 'helper'");
    assert_eq!(
        helper.qualifier.as_deref(),
        Some("Service"),
        "the `helper` call must be qualified by `Service`"
    );
    assert!(
        !call_refs.iter().any(|r| r.name == "Service"),
        "receiver `Service` must NOT be a Call ref; got: {:?}",
        call_refs.iter().map(|r| &r.name).collect::<Vec<_>>()
    );
}

#[test]
fn kotlin_this_receiver_call_marks_self_receiver() {
    let src = "class C {\n    fun foo() {}\n    fun run() { this.foo() }\n}\n";
    let facts = extract(src, "src/C.kt");
    let foo_call = facts
        .references
        .iter()
        .find(|r| r.role == RefRole::Call && r.name == "foo")
        .expect("expected a Call reference for 'foo'");
    assert!(
        foo_call.self_receiver,
        "this.foo() should mark self_receiver = true"
    );
    assert_eq!(
        foo_call.qualifier, None,
        "self-call qualifier must stay None"
    );
}

#[test]
fn kotlin_non_self_receiver_call_does_not_mark_self_receiver() {
    let src = "class C {\n    fun foo() {}\n    fun run(obj: C) { obj.foo() }\n}\n";
    let facts = extract(src, "src/C.kt");
    let foo_calls: Vec<_> = facts
        .references
        .iter()
        .filter(|r| r.role == RefRole::Call && r.name == "foo")
        .collect();
    assert!(
        foo_calls.iter().any(|r| !r.self_receiver),
        "obj.foo() must NOT mark self_receiver, got {foo_calls:?}"
    );
}

#[test]
fn import_carries_from_path_and_source_module() {
    // `import com.example.alpha.Service` → an Import ref named `Service` that
    // carries from_path `com.example.alpha` and the file's module id, so the
    // scope tier can disambiguate a same-named symbol to the imported package.
    let src = "package com.example\nimport com.example.alpha.Service\nfun run() {}\n";
    let file = "src/com/example/Main.kt";
    let facts = extract(src, file);

    let import = facts
        .references
        .iter()
        .find(|r| r.role == RefRole::Import && r.name == "Service")
        .expect("expected an Import ref for 'Service'");
    assert_eq!(import.from_path.as_deref(), Some("com.example.alpha"));

    let expected_module_id = module_symbol(
        Language::Kotlin,
        &["com".into(), "example".into()],
        file,
        src.len(),
    )
    .id
    .to_scip_string();
    assert_eq!(import.source_module, Some(expected_module_id));
}

// ── Visibility tests ──────────────────────────────────────────────────────

// Test V1: explicit `public` modifier → Visibility::Public.
#[test]
fn explicit_public_modifier_yields_public() {
    let src = "package com.ex\npublic fun doWork() {}";
    let facts = extract(src, "src/com/ex/Work.kt");
    let sym = by_name(&facts, "doWork").expect("expected 'doWork'");
    assert_eq!(
        sym.visibility,
        Visibility::Public,
        "explicit 'public' must yield Visibility::Public"
    );
}

// Test V2: no modifier → Visibility::Public (Kotlin default).
#[test]
fn no_modifier_yields_public() {
    let src = "package com.ex\nfun compute() {}";
    let facts = extract(src, "src/com/ex/Comp.kt");
    let sym = by_name(&facts, "compute").expect("expected 'compute'");
    assert_eq!(
        sym.visibility,
        Visibility::Public,
        "missing modifier must default to Visibility::Public"
    );
}

// Test V3: `private` → emitted with Visibility::Private.
#[test]
fn private_modifier_emits_private_visibility() {
    let src = "package com.ex\nclass Foo {\n    private fun hidden() {}\n}";
    let facts = extract(src, "src/com/ex/Foo.kt");
    let sym = by_name(&facts, "hidden").expect("private method 'hidden' must be emitted");
    assert_eq!(
        sym.visibility,
        Visibility::Private,
        "private fun must have Visibility::Private"
    );
}

// Test V4: `internal` → Visibility::Internal.
#[test]
fn internal_modifier_yields_internal() {
    let src = "package com.ex\ninternal class Cache {}";
    let facts = extract(src, "src/com/ex/Cache.kt");
    let sym = by_name(&facts, "Cache").expect("expected 'Cache'");
    assert_eq!(
        sym.visibility,
        Visibility::Internal,
        "internal class must have Visibility::Internal"
    );
}

// Test V5: `protected` → Visibility::Protected.
#[test]
fn protected_modifier_yields_protected() {
    let src = "package com.ex\nopen class Base {\n    protected fun hook() {}\n}";
    let facts = extract(src, "src/com/ex/Base.kt");
    let sym = by_name(&facts, "hook").expect("expected 'hook'");
    assert_eq!(
        sym.visibility,
        Visibility::Protected,
        "protected fun must have Visibility::Protected"
    );
}

// Test V6: private top-level property → emitted with Visibility::Private.
#[test]
fn private_property_emits_private_visibility() {
    let src = "package com.ex\nprivate val secret: Int = 42";
    let facts = extract(src, "src/com/ex/Secrets.kt");
    let sym = by_name(&facts, "secret").expect("private property 'secret' must be emitted");
    assert_eq!(
        sym.visibility,
        Visibility::Private,
        "private val must have Visibility::Private"
    );
}

// Test V7: private class → emitted with Visibility::Private.
#[test]
fn private_class_emits_private_visibility() {
    let src = "package com.ex\nprivate class Impl {}";
    let facts = extract(src, "src/com/ex/Impl.kt");
    let sym = by_name(&facts, "Impl").expect("private class 'Impl' must be emitted");
    assert_eq!(
        sym.visibility,
        Visibility::Private,
        "private class must have Visibility::Private"
    );
}
