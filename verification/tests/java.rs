use codegraph::extract::java::JavaExtractor;
use codegraph::extract::{Extractor, module_symbol};
use codegraph::graph::types::{
    BindingKind, EntryPoint, FileFacts, RefRole, ScopeId, ScopeKind, Symbol, SymbolKind,
    TypeRefContext, Visibility,
};
use codegraph::lang::Language;

#[test]
fn extracts_all_types_and_members_with_visibility() {
    let src = r#"package com.example.auth;
public class SessionManager {
    public boolean validate(String token) { return true; }
    private void secret() {}
    int packagePrivate;
}
class Helper {}
"#;
    let facts = JavaExtractor
        .extract(src, "src/com/example/auth/SessionManager.java")
        .unwrap();

    let by_name = |n: &str| facts.symbols.iter().find(|s| s.name == n).cloned();

    let sm = by_name("SessionManager").unwrap();
    assert_eq!(sm.kind, SymbolKind::Class);
    assert_eq!(sm.visibility, Visibility::Public);
    assert_eq!(
        sm.id.to_scip_string(),
        "codegraph . . . com/example/auth/SessionManager#"
    );

    let validate = by_name("validate").unwrap();
    assert_eq!(validate.kind, SymbolKind::Method);
    assert_eq!(validate.visibility, Visibility::Public);
    assert_eq!(
        validate.id.to_scip_string(),
        "codegraph . . . com/example/auth/SessionManager#validate()."
    );

    // private method — emitted with Private visibility
    let secret = by_name("secret").unwrap();
    assert_eq!(secret.visibility, Visibility::Private);

    // package-private field — emitted with Internal visibility
    let pkg_priv = by_name("packagePrivate").unwrap();
    assert_eq!(pkg_priv.visibility, Visibility::Internal);

    // package-private type — emitted with Internal visibility
    let helper = by_name("Helper").unwrap();
    assert_eq!(helper.kind, SymbolKind::Class);
    assert_eq!(helper.visibility, Visibility::Internal);

    assert_eq!(facts.lang, "java");
}

#[test]
fn interface_members_are_public() {
    let src = r#"package io.svc;
public interface Reader {
    int read();
    void close();
}
"#;
    let facts = JavaExtractor
        .extract(src, "src/io/svc/Reader.java")
        .unwrap();

    let by_name = |n: &str| facts.symbols.iter().find(|s| s.name == n).cloned();

    let reader = by_name("Reader").unwrap();
    assert_eq!(reader.kind, SymbolKind::Interface);
    assert_eq!(reader.id.to_scip_string(), "codegraph . . . io/svc/Reader#");

    // Both methods must be emitted even though they carry no `public` modifier,
    // and both must have Visibility::Public (implicit public for interface members).
    let read = by_name("read").unwrap();
    assert_eq!(read.kind, SymbolKind::Method);
    assert_eq!(read.visibility, Visibility::Public);
    assert_eq!(
        read.id.to_scip_string(),
        "codegraph . . . io/svc/Reader#read()."
    );

    let close = by_name("close").unwrap();
    assert_eq!(close.kind, SymbolKind::Method);
    assert_eq!(close.visibility, Visibility::Public);
    assert_eq!(
        close.id.to_scip_string(),
        "codegraph . . . io/svc/Reader#close()."
    );
}

#[test]
fn java_extracts_call_references() {
    let src = r#"package com.example;
public class Client {
    public void run() {
        validate("t");
        new Server();
    }
}
"#;
    let facts = JavaExtractor
        .extract(src, "src/com/example/Client.java")
        .unwrap();

    let names: Vec<&str> = facts.references.iter().map(|r| r.name.as_str()).collect();
    assert!(
        names.contains(&"validate"),
        "expected 'validate' in {names:?}"
    );
    assert!(names.contains(&"Server"), "expected 'Server' in {names:?}");
}

#[test]
fn extracts_class_inheritance_references() {
    let src = "package p; public class Foo extends Bar implements Baz {}";
    let facts = JavaExtractor.extract(src, "src/p/Foo.java").unwrap();

    let inherit_names: Vec<&str> = facts
        .references
        .iter()
        .filter(|r| r.role == RefRole::IsImplementation)
        .map(|r| r.name.as_str())
        .collect();
    assert!(
        inherit_names.contains(&"Bar"),
        "expected 'Bar' in {inherit_names:?}"
    );
    assert!(
        inherit_names.contains(&"Baz"),
        "expected 'Baz' in {inherit_names:?}"
    );
}

#[test]
fn extracts_interface_extends_reference() {
    let src = "package p; public interface I extends J {}";
    let facts = JavaExtractor.extract(src, "src/p/I.java").unwrap();

    let inherit_names: Vec<&str> = facts
        .references
        .iter()
        .filter(|r| r.role == RefRole::IsImplementation)
        .map(|r| r.name.as_str())
        .collect();
    assert!(
        inherit_names.contains(&"J"),
        "expected 'J' in {inherit_names:?}"
    );
}

#[test]
fn extracts_named_import_reference() {
    let src = "import com.example.Service;\nclass A {}";
    let facts = JavaExtractor.extract(src, "src/A.java").unwrap();

    let import_names: Vec<&str> = facts
        .references
        .iter()
        .filter(|r| r.role == RefRole::Import)
        .map(|r| r.name.as_str())
        .collect();
    assert!(
        import_names.contains(&"Service"),
        "expected 'Service' in {import_names:?}"
    );
    assert_eq!(
        import_names.len(),
        1,
        "unexpected extra imports: {import_names:?}"
    );
}

#[test]
fn extracts_static_import_reference() {
    let src = "import static com.x.Util.helper;\nclass A {}";
    let facts = JavaExtractor.extract(src, "src/A.java").unwrap();

    let import_names: Vec<&str> = facts
        .references
        .iter()
        .filter(|r| r.role == RefRole::Import)
        .map(|r| r.name.as_str())
        .collect();
    assert!(
        import_names.contains(&"helper"),
        "expected 'helper' in {import_names:?}"
    );
    assert_eq!(
        import_names.len(),
        1,
        "unexpected extra imports: {import_names:?}"
    );
}

#[test]
fn wildcard_import_emits_no_reference() {
    let src = "import com.x.*;\nclass A {}";
    let facts = JavaExtractor.extract(src, "src/A.java").unwrap();

    let import_refs: Vec<&str> = facts
        .references
        .iter()
        .filter(|r| r.role == RefRole::Import)
        .map(|r| r.name.as_str())
        .collect();
    assert!(
        import_refs.is_empty(),
        "expected no import refs but got: {import_refs:?}"
    );
}

#[test]
fn import_refs_carry_source_module() {
    // `import com.example.Service;` in a file without a package declaration
    // → Import ref carries the SCIP module id derived from the file path.
    let src = "import com.example.Service;\nclass A {}";
    let file = "src/com/example/A.java";
    let facts = JavaExtractor.extract(src, file).unwrap();

    // Replicate the namespace derivation used by the extractor (no package
    // declaration → path-derived fallback in java_namespaces).
    let p = file.strip_suffix(".java").unwrap_or(file);
    let p = p.strip_prefix("src/").unwrap_or(p);
    let namespaces: Vec<String> = p
        .split('/')
        .filter(|s| !s.is_empty())
        .map(str::to_owned)
        .collect();
    let expected_module_id =
        module_symbol(Language::Java, &namespaces, file, src.len())
            .id
            .to_scip_string();

    let import_refs: Vec<_> = facts
        .references
        .iter()
        .filter(|r| r.role == RefRole::Import)
        .collect();
    assert!(!import_refs.is_empty(), "expected at least one Import ref");
    for r in &import_refs {
        assert_eq!(
            r.source_module,
            Some(expected_module_id.clone()),
            "Import ref '{}' should carry source_module = {:?}",
            r.name,
            expected_module_id
        );
    }
}

#[test]
fn package_declaration_emits_no_read_refs() {
    // `package com.example;` declares the file's package — it is NOT a value
    // read of `com` or `example`. The qualified-name segments must not leak in
    // as Read references (which would resolve back to the package/module symbol
    // as a spurious self-edge). Deep import paths must likewise contribute no
    // Read segments — they are already captured as Import refs.
    let src = "package com.example;\n\
                   import com.example.alpha.Service;\n\
                   class Main { int run() { return Service.helper(); } }";
    let facts = JavaExtractor
        .extract(src, "src/com/example/Main.java")
        .unwrap();

    for seg in ["com", "example", "alpha"] {
        assert!(
            !facts
                .references
                .iter()
                .any(|r| r.role == RefRole::Read && r.name == seg),
            "package/import path segment '{seg}' must not be a Read ref; refs: {:?}",
            facts
                .references
                .iter()
                .map(|r| (&r.name, r.role))
                .collect::<Vec<_>>()
        );
    }
    // The receiver of the call IS a genuine read and must be retained.
    assert!(
        facts
            .references
            .iter()
            .any(|r| r.role == RefRole::Read && r.name == "Service"),
        "the `Service` receiver in `Service.helper()` should remain a Read ref"
    );
}

// --- from_path tests ---

#[test]
fn named_import_carries_from_path() {
    // `import com.example.Service;` → from_path == "com.example"
    let src = "import com.example.Service;\nclass A {}";
    let facts = JavaExtractor.extract(src, "src/A.java").unwrap();
    let r = facts
        .references
        .iter()
        .find(|r| r.role == RefRole::Import && r.name == "Service")
        .expect("expected Import ref for 'Service'");
    assert_eq!(
        r.from_path,
        Some("com.example".to_owned()),
        "from_path should be 'com.example', got {:?}",
        r.from_path
    );
}

// ── Tier-B scope / binding tests ─────────────────────────────────────────

#[test]
fn method_params_emit_param_bindings() {
    // `public void f(int a, String b){}` → two Param bindings in a Function scope.
    let src = "package p;\npublic class C { public void f(int a, String b){} }";
    let facts = JavaExtractor.extract(src, "src/p/C.java").unwrap();

    let fn_scope_id = facts
        .scopes
        .iter()
        .position(|s| s.kind == ScopeKind::Function)
        .expect("expected a Function scope");

    let mut param_names: Vec<(&str, ScopeId)> = facts
        .bindings
        .iter()
        .filter(|b| b.kind == BindingKind::Param)
        .map(|b| (b.name.as_str(), b.scope))
        .collect();
    param_names.sort_by_key(|(n, _)| *n);

    assert_eq!(
        param_names,
        vec![("a", fn_scope_id), ("b", fn_scope_id)],
        "expected Param bindings for a and b, got {param_names:?}"
    );
}

#[test]
fn constructor_param_emits_param_binding() {
    // `public C(int x){}` → Param `x` in a Function scope.
    let src = "package p;\npublic class C { public C(int x){} }";
    let facts = JavaExtractor.extract(src, "src/p/C.java").unwrap();

    let x = facts
        .bindings
        .iter()
        .find(|b| b.kind == BindingKind::Param && b.name == "x")
        .expect("expected Param binding for 'x'");
    assert_eq!(
        facts.scopes[x.scope].kind,
        ScopeKind::Function,
        "constructor param 'x' should be in a Function scope"
    );
}

#[test]
fn local_var_inside_method_emits_local() {
    // `int x = 1;` inside a method → Local `x`.
    let src = "package p;\npublic class C { public void f() { int x = 1; } }";
    let facts = JavaExtractor.extract(src, "src/p/C.java").unwrap();

    let x = facts
        .bindings
        .iter()
        .find(|b| b.kind == BindingKind::Local && b.name == "x")
        .expect("expected Local binding for 'x'");
    assert_ne!(x.scope, 0, "local 'x' must not be in scope 0");
}

#[test]
fn java_multi_declarator_emits_two_locals() {
    // `int a, b;` inside a method → Locals `a` and `b`.
    let src = "package p;\npublic class C { public void f() { int a = 1, b = 2; } }";
    let facts = JavaExtractor.extract(src, "src/p/C.java").unwrap();

    let locals: Vec<&str> = facts
        .bindings
        .iter()
        .filter(|b| b.kind == BindingKind::Local)
        .map(|b| b.name.as_str())
        .collect();
    assert!(
        locals.contains(&"a"),
        "expected Local for 'a', got {locals:?}"
    );
    assert!(
        locals.contains(&"b"),
        "expected Local for 'b', got {locals:?}"
    );
}

#[test]
fn enhanced_for_loop_var_emits_local() {
    // `for (int x : xs) {}` → Local `x`.
    let src = "package p;\npublic class C { public void f(int[] xs) { for (int x : xs) {} } }";
    let facts = JavaExtractor.extract(src, "src/p/C.java").unwrap();

    let x = facts
        .bindings
        .iter()
        .find(|b| b.kind == BindingKind::Local && b.name == "x")
        .expect("expected Local binding for 'x'");
    assert_ne!(x.scope, 0, "enhanced-for 'x' must not be in scope 0");
}

#[test]
fn class_field_is_definition_not_local() {
    // `public int count;` at class level → Definition binding, NOT Local.
    let src = "package p;\npublic class C { public int count; }";
    let facts = JavaExtractor.extract(src, "src/p/C.java").unwrap();

    assert!(
        !facts
            .bindings
            .iter()
            .any(|b| b.kind == BindingKind::Local && b.name == "count"),
        "class field 'count' must NOT be a Local binding"
    );
    // The Definition binding for `count` comes from definition_bindings.
    let def = facts
        .bindings
        .iter()
        .find(|b| b.kind == BindingKind::Definition && b.name == "count")
        .expect("expected a Definition binding for 'count'");
    assert_eq!(
        def.scope, 0,
        "Definition binding for 'count' must be at scope 0"
    );
}

#[test]
fn nesting_produces_correct_scope_hierarchy() {
    // `public class C { public void f() {} }` → Module → Type → Function.
    let src = "package p;\npublic class C { public void f() {} }";
    let facts = JavaExtractor.extract(src, "src/p/C.java").unwrap();

    assert_eq!(
        facts.scopes[0].kind,
        ScopeKind::Module,
        "scopes[0] must be Module"
    );

    let type_scopes: Vec<ScopeId> = facts
        .scopes
        .iter()
        .enumerate()
        .filter(|(_, s)| s.kind == ScopeKind::Type)
        .map(|(i, _)| i)
        .collect();
    assert_eq!(type_scopes.len(), 1, "expected exactly one Type scope");

    let type_scope_id = type_scopes[0];
    assert_eq!(
        facts.scopes[type_scope_id].parent,
        Some(0),
        "Type scope parent must be Module (0)"
    );

    let fn_scopes: Vec<ScopeId> = facts
        .scopes
        .iter()
        .enumerate()
        .filter(|(_, s)| s.kind == ScopeKind::Function)
        .map(|(i, _)| i)
        .collect();
    assert_eq!(fn_scopes.len(), 1, "expected exactly one Function scope");

    let fn_scope_id = fn_scopes[0];
    assert_eq!(
        facts.scopes[fn_scope_id].parent,
        Some(type_scope_id),
        "Function scope parent must be the Type scope"
    );
}

#[test]
fn catch_param_emits_param_binding() {
    // `catch (Exception e) {}` → Param `e`.
    let src = r#"package p;
public class C {
    public void f() {
        try {} catch (Exception e) {}
    }
}"#;
    let facts = JavaExtractor.extract(src, "src/p/C.java").unwrap();

    let e = facts
        .bindings
        .iter()
        .find(|b| b.kind == BindingKind::Param && b.name == "e")
        .expect("expected Param binding for 'e'");
    assert_ne!(e.scope, 0, "catch param 'e' must not be in scope 0");
}

#[test]
fn lambda_inferred_params_emit_param_bindings() {
    // `(a, b) -> a + b` → Params `a` and `b`.
    let src = r#"package p;
public class C {
    public void f() {
        java.util.function.BiFunction<Integer,Integer,Integer> fn = (a, b) -> a + b;
    }
}"#;
    let facts = JavaExtractor.extract(src, "src/p/C.java").unwrap();

    let params: Vec<&str> = facts
        .bindings
        .iter()
        .filter(|b| b.kind == BindingKind::Param)
        .map(|b| b.name.as_str())
        .collect();
    assert!(params.contains(&"a"), "expected Param 'a', got {params:?}");
    assert!(params.contains(&"b"), "expected Param 'b', got {params:?}");
    for p in facts
        .bindings
        .iter()
        .filter(|b| b.kind == BindingKind::Param)
    {
        assert_ne!(
            p.scope, 0,
            "lambda param '{}' must not be in scope 0",
            p.name
        );
    }
}

#[test]
fn varargs_param_emits_param_binding() {
    // `public void f(int... xs){}` → Param `xs`.
    let src = "package p;\npublic class C { public void f(int... xs){} }";
    let facts = JavaExtractor.extract(src, "src/p/C.java").unwrap();

    let xs = facts
        .bindings
        .iter()
        .find(|b| b.kind == BindingKind::Param && b.name == "xs")
        .expect("expected Param binding for 'xs'");
    assert_ne!(xs.scope, 0, "varargs param 'xs' must not be in scope 0");
}

#[test]
fn import_binding_emits_import_kind() {
    // `import com.example.Service;` → an Import binding named `Service`.
    let src = "import com.example.Service;\nclass A {}";
    let facts = JavaExtractor.extract(src, "src/A.java").unwrap();

    let svc = facts
        .bindings
        .iter()
        .find(|b| b.kind == BindingKind::Import && b.name == "Service")
        .expect("expected Import binding for 'Service'");
    // Import bindings land in the module scope.
    assert_eq!(
        svc.scope, 0,
        "Import binding 'Service' should be in scope 0"
    );
}

#[test]
fn same_file_call_ref_has_non_zero_scope() {
    // Calc.java-style test: `add` is defined in the class and called from `doubleAdd`.
    // The call ref for `add` should be attached to a non-zero scope.
    let src = r#"package com.example;
public class Calc {
    public int add(int a, int b) {
        return a + b;
    }
    public int doubleAdd(int x) {
        return add(x, x);
    }
}"#;
    let facts = JavaExtractor
        .extract(src, "src/com/example/Calc.java")
        .unwrap();

    // There must be a Definition binding for `add`.
    assert!(
        facts
            .bindings
            .iter()
            .any(|b| b.kind == BindingKind::Definition && b.name == "add"),
        "expected a Definition binding for 'add'"
    );

    // The `add` Call ref must have a non-None, non-zero scope.
    let add_ref = facts
        .references
        .iter()
        .find(|r| r.role == RefRole::Call && r.name == "add")
        .expect("expected a Call ref for 'add'");
    let scope_id = add_ref
        .scope
        .expect("add() Call ref must have a scope attached");
    assert_ne!(
        scope_id, 0,
        "add() Call ref scope must not be the module root"
    );
}

// ── Edge richness: Read / Write ──────────────────────────────────────────

#[test]
fn java_read_ref_emitted_for_use_not_decl() {
    // `int base = 1; use(base);` → Read "base" at the call-arg site, NOT at the declarator.
    let src = r#"package p;
public class C {
    public void f() {
        int base = 1;
        use(base);
    }
}"#;
    let facts = JavaExtractor.extract(src, "src/p/C.java").unwrap();
    let read_refs: Vec<_> = facts
        .references
        .iter()
        .filter(|r| r.role == RefRole::Read && r.name == "base")
        .collect();
    assert!(
        !read_refs.is_empty(),
        "expected at least one Read ref for 'base', got none; all refs: {:?}",
        facts
            .references
            .iter()
            .map(|r| (&r.name, r.role))
            .collect::<Vec<_>>()
    );
    // The declaration `int base = 1` must NOT produce a Read;
    // every Read ref must be after the `=` sign in the declarator (byte > the decl's `=`).
    // In `int base = 1;` the name `base` starts around byte offset of the declaration;
    // the use inside `use(base)` is after the semicolon. Verify at least one Read is after
    // the first occurrence (which would be the declarator name).
    let decl_byte = src.find("int base").expect("int base not found");
    let use_byte = src.find("use(base)").expect("use(base) not found");
    let has_use_read = read_refs.iter().any(|r| r.occ.byte > decl_byte + 10);
    assert!(
        has_use_read,
        "Read ref for 'base' must be at the use site (byte > {}), got: {:?}",
        decl_byte + 10,
        read_refs.iter().map(|r| r.occ.byte).collect::<Vec<_>>()
    );
    // Sanity: the use-site Read byte should be inside the use(base) call.
    let _ = use_byte; // used implicitly via has_use_read
}

#[test]
fn java_write_ref_emitted_for_assignment() {
    // `int cnt = 0; cnt = 5;` → Write "cnt" for `cnt = 5`.
    let src = r#"package p;
public class C {
    public void f() {
        int cnt = 0;
        cnt = 5;
    }
}"#;
    let facts = JavaExtractor.extract(src, "src/p/C.java").unwrap();
    let write_refs: Vec<_> = facts
        .references
        .iter()
        .filter(|r| r.role == RefRole::Write && r.name == "cnt")
        .collect();
    assert!(
        !write_refs.is_empty(),
        "expected at least one Write ref for 'cnt', got none; all refs: {:?}",
        facts
            .references
            .iter()
            .map(|r| (&r.name, r.role))
            .collect::<Vec<_>>()
    );
}

#[test]
fn java_call_not_also_read() {
    // `helper()` → a Call ref for "helper", but NOT also a Read ref.
    let src = r#"package p;
public class C {
    public void f() { helper(); }
}"#;
    let facts = JavaExtractor.extract(src, "src/p/C.java").unwrap();
    let call_refs: Vec<_> = facts
        .references
        .iter()
        .filter(|r| r.role == RefRole::Call && r.name == "helper")
        .collect();
    assert!(!call_refs.is_empty(), "expected a Call ref for 'helper'");
    let read_refs: Vec<_> = facts
        .references
        .iter()
        .filter(|r| r.role == RefRole::Read && r.name == "helper")
        .collect();
    assert!(
        read_refs.is_empty(),
        "helper() must NOT produce a Read ref; got: {read_refs:?}"
    );
}

#[test]
fn java_field_access_object_is_read_member_is_not() {
    // `use(obj.field)` → Read "obj" (the receiver), no Read "field" (the member name).
    let src = r#"package p;
public class C {
    public void f(C obj) { use(obj.field); }
}"#;
    let facts = JavaExtractor.extract(src, "src/p/C.java").unwrap();
    // `obj` must appear as a Read ref (it's the receiver, a value read).
    let obj_reads: Vec<_> = facts
        .references
        .iter()
        .filter(|r| r.role == RefRole::Read && r.name == "obj")
        .collect();
    assert!(
        !obj_reads.is_empty(),
        "expected a Read ref for receiver 'obj'; all refs: {:?}",
        facts
            .references
            .iter()
            .map(|r| (&r.name, r.role))
            .collect::<Vec<_>>()
    );
    // `field` (the `field:` of field_access) must NOT be a Read ref.
    let field_reads: Vec<_> = facts
        .references
        .iter()
        .filter(|r| r.role == RefRole::Read && r.name == "field")
        .collect();
    assert!(
        field_reads.is_empty(),
        "member name 'field' in field_access must NOT be a Read ref; got: {field_reads:?}"
    );
}

// ── TypeRef tests ────────────────────────────────────────────────────────

#[test]
fn java_param_type_ref_emitted() {
    // `void f(Config c) {}` → TypeRef "Config" with ParameterType ctx.
    let src = "package p; class C { void f(Config c) {} }";
    let facts = JavaExtractor.extract(src, "src/p/C.java").unwrap();
    let r = facts
        .references
        .iter()
        .find(|r| r.role == RefRole::TypeRef && r.name == "Config")
        .expect("expected TypeRef ref for 'Config'");
    assert_eq!(
        r.type_ref_ctx,
        Some(TypeRefContext::ParameterType),
        "expected ParameterType ctx, got {:?}",
        r.type_ref_ctx
    );
}

#[test]
fn java_return_type_ref_emitted() {
    // `Config get() { return null; }` → TypeRef "Config" with ReturnType ctx.
    let src = "package p; class C { Config get() { return null; } }";
    let facts = JavaExtractor.extract(src, "src/p/C.java").unwrap();
    let r = facts
        .references
        .iter()
        .find(|r| r.role == RefRole::TypeRef && r.name == "Config")
        .expect("expected TypeRef ref for 'Config'");
    assert_eq!(
        r.type_ref_ctx,
        Some(TypeRefContext::ReturnType),
        "expected ReturnType ctx, got {:?}",
        r.type_ref_ctx
    );
}

#[test]
fn java_field_type_ref_emitted() {
    // `Config conf;` as a class field → TypeRef "Config" with Field ctx.
    let src = "package p; class C { Config conf; }";
    let facts = JavaExtractor.extract(src, "src/p/C.java").unwrap();
    let r = facts
        .references
        .iter()
        .find(|r| r.role == RefRole::TypeRef && r.name == "Config")
        .expect("expected TypeRef ref for 'Config'");
    assert_eq!(
        r.type_ref_ctx,
        Some(TypeRefContext::Field),
        "expected Field ctx, got {:?}",
        r.type_ref_ctx
    );
}

#[test]
fn java_generic_arg_type_ref_emitted() {
    // `void f(List<Config> xs) {}` → TypeRef "List" (ParameterType) and "Config" (GenericArg).
    let src = "package p; class C { void f(List<Config> xs) {} }";
    let facts = JavaExtractor.extract(src, "src/p/C.java").unwrap();
    let list_ref = facts
        .references
        .iter()
        .find(|r| r.role == RefRole::TypeRef && r.name == "List")
        .expect("expected TypeRef ref for 'List'");
    assert_eq!(
        list_ref.type_ref_ctx,
        Some(TypeRefContext::ParameterType),
        "expected ParameterType ctx for 'List', got {:?}",
        list_ref.type_ref_ctx
    );
    let config_ref = facts
        .references
        .iter()
        .find(|r| r.role == RefRole::TypeRef && r.name == "Config")
        .expect("expected TypeRef ref for 'Config'");
    assert_eq!(
        config_ref.type_ref_ctx,
        Some(TypeRefContext::GenericArg),
        "expected GenericArg ctx for 'Config', got {:?}",
        config_ref.type_ref_ctx
    );
}

// ── Visibility tests ─────────────────────────────────────────────────────

#[test]
fn visibility_public_method() {
    let src = "package p;\npublic class C { public void pub_m() {} }";
    let facts = JavaExtractor.extract(src, "src/p/C.java").unwrap();
    let sym = facts
        .symbols
        .iter()
        .find(|s| s.name == "pub_m")
        .expect("expected symbol 'pub_m'");
    assert_eq!(
        sym.visibility,
        Visibility::Public,
        "public method must have Visibility::Public"
    );
}

#[test]
fn visibility_private_method_emitted_with_private() {
    let src = "package p;\npublic class C { private void priv_m() {} }";
    let facts = JavaExtractor.extract(src, "src/p/C.java").unwrap();
    let sym = facts
        .symbols
        .iter()
        .find(|s| s.name == "priv_m")
        .expect("private method must be emitted");
    assert_eq!(
        sym.visibility,
        Visibility::Private,
        "private method must have Visibility::Private"
    );
}

#[test]
fn visibility_protected_method_emitted_with_protected() {
    let src = "package p;\npublic class C { protected void prot_m() {} }";
    let facts = JavaExtractor.extract(src, "src/p/C.java").unwrap();
    let sym = facts
        .symbols
        .iter()
        .find(|s| s.name == "prot_m")
        .expect("protected method must be emitted");
    assert_eq!(
        sym.visibility,
        Visibility::Protected,
        "protected method must have Visibility::Protected"
    );
}

#[test]
fn visibility_package_private_method_emitted_with_internal() {
    // No access modifier → package-private in Java → Internal.
    let src = "package p;\npublic class C { void pkg_m() {} }";
    let facts = JavaExtractor.extract(src, "src/p/C.java").unwrap();
    let sym = facts
        .symbols
        .iter()
        .find(|s| s.name == "pkg_m")
        .expect("package-private method must be emitted");
    assert_eq!(
        sym.visibility,
        Visibility::Internal,
        "package-private method must have Visibility::Internal"
    );
}

#[test]
fn visibility_interface_method_implicit_public() {
    // Interface method with no modifier is implicitly public.
    let src = "package p;\npublic interface I { void iface_m(); }";
    let facts = JavaExtractor.extract(src, "src/p/I.java").unwrap();
    let sym = facts
        .symbols
        .iter()
        .find(|s| s.name == "iface_m")
        .expect("interface method must be emitted");
    assert_eq!(
        sym.visibility,
        Visibility::Public,
        "interface method without modifier must be Visibility::Public (implicitly public)"
    );
}

// ── Entry-point detection ────────────────────────────────────────────────

/// Helper: find a symbol by bare name in `facts.symbols`.
fn sym_by_name(facts: &FileFacts, name: &str) -> Symbol {
    facts
        .symbols
        .iter()
        .find(|s| s.name == name)
        .unwrap_or_else(|| {
            panic!("symbol '{name}' not found; symbols: {:?}", {
                let names: Vec<&str> = facts.symbols.iter().map(|s| s.name.as_str()).collect();
                names
            })
        })
        .clone()
}

/// Helper: render entry_points as a compact string for assertion messages.
fn ep_str(eps: &[EntryPoint]) -> String {
    eps.iter()
        .map(|ep| match ep {
            EntryPoint::Main => "Main".to_owned(),
            EntryPoint::HttpRoute(m) => format!("HttpRoute({m})"),
        })
        .collect::<Vec<_>>()
        .join(", ")
}

#[test]
fn java_entry_point_rest_controller_class() {
    // `@RestController` on a class → HttpRoute("RestController") on the class symbol.
    let src = "@RestController\npublic class UserController {}";
    let facts = JavaExtractor
        .extract(src, "src/UserController.java")
        .unwrap();
    let sym = sym_by_name(&facts, "UserController");
    assert_eq!(
        sym.entry_points.len(),
        1,
        "expected exactly 1 entry point, got [{}]",
        ep_str(&sym.entry_points)
    );
    assert!(
        matches!(&sym.entry_points[0], EntryPoint::HttpRoute(m) if m == "RestController"),
        "expected HttpRoute(\"RestController\"), got [{}]",
        ep_str(&sym.entry_points)
    );
}

#[test]
fn java_entry_point_get_mapping_method() {
    // `@GetMapping("/users")` on a method → HttpRoute("GetMapping") on the method symbol.
    let src = r#"public class Api {
    @GetMapping("/users")
    public java.util.List<Object> list() { return null; }
}"#;
    let facts = JavaExtractor.extract(src, "src/Api.java").unwrap();
    let sym = sym_by_name(&facts, "list");
    assert_eq!(
        sym.entry_points.len(),
        1,
        "expected exactly 1 entry point on 'list', got [{}]",
        ep_str(&sym.entry_points)
    );
    assert!(
        matches!(&sym.entry_points[0], EntryPoint::HttpRoute(m) if m == "GetMapping"),
        "expected HttpRoute(\"GetMapping\"), got [{}]",
        ep_str(&sym.entry_points)
    );
}

#[test]
fn java_entry_point_non_route_annotation_ignored() {
    // `@Override` is not in the route set → entry_points must be empty.
    let src = r#"public class Foo {
    @Override
    public String toString() { return null; }
}"#;
    let facts = JavaExtractor.extract(src, "src/Foo.java").unwrap();
    let sym = sym_by_name(&facts, "toString");
    assert!(
        sym.entry_points.is_empty(),
        "non-route annotation must not produce entry points; got [{}]",
        ep_str(&sym.entry_points)
    );
}

#[test]
fn java_entry_point_static_main() {
    // `public static void main(String[] args) {}` → EntryPoint::Main.
    let src = r#"public class App {
    public static void main(String[] args) {}
}"#;
    let facts = JavaExtractor.extract(src, "src/App.java").unwrap();
    let sym = sym_by_name(&facts, "main");
    assert_eq!(
        sym.entry_points.len(),
        1,
        "expected exactly 1 entry point on 'main', got [{}]",
        ep_str(&sym.entry_points)
    );
    assert!(
        matches!(&sym.entry_points[0], EntryPoint::Main),
        "expected Main, got [{}]",
        ep_str(&sym.entry_points)
    );
}

#[test]
fn java_entry_point_plain_class_and_method_empty() {
    // An undecorated class and a plain method → entry_points empty for both.
    let src = r#"public class Plain {
    public void doWork() {}
}"#;
    let facts = JavaExtractor.extract(src, "src/Plain.java").unwrap();
    let cls = sym_by_name(&facts, "Plain");
    assert!(
        cls.entry_points.is_empty(),
        "plain class must have no entry points; got [{}]",
        ep_str(&cls.entry_points)
    );
    let method = sym_by_name(&facts, "doWork");
    assert!(
        method.entry_points.is_empty(),
        "plain method must have no entry points; got [{}]",
        ep_str(&method.entry_points)
    );
}

#[test]
fn java_entry_point_post_mapping_method() {
    // `@PostMapping("/x")` on a method → HttpRoute("PostMapping").
    let src = r#"public class Api {
    @PostMapping("/x")
    public void create() {}
}"#;
    let facts = JavaExtractor.extract(src, "src/Api.java").unwrap();
    let sym = sym_by_name(&facts, "create");
    assert_eq!(
        sym.entry_points.len(),
        1,
        "expected exactly 1 entry point on 'create', got [{}]",
        ep_str(&sym.entry_points)
    );
    assert!(
        matches!(&sym.entry_points[0], EntryPoint::HttpRoute(m) if m == "PostMapping"),
        "expected HttpRoute(\"PostMapping\"), got [{}]",
        ep_str(&sym.entry_points)
    );
}

#[test]
fn java_entry_point_non_static_main_ignored() {
    // A non-static method named `main` must NOT produce EntryPoint::Main.
    let src = r#"public class Foo {
    public void main() {}
}"#;
    let facts = JavaExtractor.extract(src, "src/Foo.java").unwrap();
    let sym = sym_by_name(&facts, "main");
    assert!(
        sym.entry_points.is_empty(),
        "non-static 'main' must not produce EntryPoint::Main; got [{}]",
        ep_str(&sym.entry_points)
    );
}

#[test]
fn self_receiver_method_call_is_marked_self_receiver() {
    // `this.foo()` — object: (this) arm → leaf "foo", qualifier None,
    // self_receiver true.
    let src = "class Person { void caller() { this.foo(); } }";
    let facts = JavaExtractor.extract(src, "src/Person.java").unwrap();
    let r = facts
        .references
        .iter()
        .find(|r| r.role == RefRole::Call && r.name == "foo")
        .expect("expected a Call ref for 'foo'");
    assert!(
        r.self_receiver,
        "this.foo() should have self_receiver == true"
    );
    assert_eq!(
        r.qualifier, None,
        "this.foo() should still have qualifier == None, got {:?}",
        r.qualifier
    );
}

#[test]
fn non_self_method_call_is_not_marked_self_receiver() {
    // `x.foo()` on a local variable — must NOT be marked self_receiver.
    let src = "class Person { void caller(Foo x) { x.foo(); } }";
    let facts = JavaExtractor.extract(src, "src/Person.java").unwrap();
    let r = facts
        .references
        .iter()
        .find(|r| r.role == RefRole::Call && r.name == "foo")
        .expect("expected a Call ref for 'foo'");
    assert!(
        !r.self_receiver,
        "x.foo() must not have self_receiver == true"
    );
}

// ── Local-typed-call facts: receiver qualifier + binding type_name ───────

#[test]
fn bare_receiver_call_sets_qualifier() {
    // `repo.save()` on a local — the `save` Call ref carries qualifier `repo`.
    let src = "class C { void run() { Repo repo = new Repo(); repo.save(); } }";
    let facts = JavaExtractor.extract(src, "src/C.java").unwrap();
    let r = facts
        .references
        .iter()
        .find(|r| r.role == RefRole::Call && r.name == "save")
        .expect("expected a Call ref for 'save'");
    assert_eq!(r.qualifier.as_deref(), Some("repo"));
    assert!(!r.self_receiver);
}

#[test]
fn java_typed_local_and_param_set_binding_type_name() {
    // Declared local `Foo x`, constructor `var y = new Bar()`, and param `Baz p`.
    let src =
        "class C { void run(Baz p) { Foo x = null; var y = new Bar(); x.a(); y.b(); p.c(); } }";
    let facts = JavaExtractor.extract(src, "src/C.java").unwrap();
    let ty = |n: &str| {
        facts
            .bindings
            .iter()
            .find(|b| b.name == n)
            .and_then(|b| b.declared_type.clone())
    };
    assert_eq!(ty("x").as_deref(), Some("Foo"), "declared local type");
    assert_eq!(ty("y").as_deref(), Some("Bar"), "var + new Bar() type");
    assert_eq!(ty("p").as_deref(), Some("Baz"), "param type");
}

#[test]
fn primitive_local_has_no_type_name() {
    // `int n = 1;` — a primitive is not a user type; type_name must be None.
    let src = "class C { void run() { int n = 1; } }";
    let facts = JavaExtractor.extract(src, "src/C.java").unwrap();
    let n = facts.bindings.iter().find(|b| b.name == "n").unwrap();
    assert_eq!(n.declared_type, None);
}
