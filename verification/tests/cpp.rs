use codegraph::extract::cpp::CppExtractor;
use codegraph::extract::Extractor;
use codegraph::graph::types::{
    BindingKind, EntryPoint, FileFacts, RefRole, ScopeId, ScopeKind, Symbol, SymbolKind,
    TypeRefContext, Visibility,
};

fn by_name<'a>(facts: &'a FileFacts, n: &str) -> Option<&'a Symbol> {
    facts.symbols.iter().find(|s| s.name == n)
}

#[test]
fn free_main_is_entry_point() {
    let facts = CppExtractor
        .extract("int main() { return 0; }", "src/main.cpp")
        .unwrap();
    let main = by_name(&facts, "main").unwrap();
    assert!(
        main.entry_points
            .iter()
            .any(|e| matches!(e, EntryPoint::Main))
    );
}

#[test]
fn cpp_method_main_is_not_entry_point() {
    let facts = CppExtractor
        .extract("struct S { int main(); };", "src/s.cpp")
        .unwrap();
    let main = by_name(&facts, "main").unwrap();
    assert!(
        !main
            .entry_points
            .iter()
            .any(|e| matches!(e, EntryPoint::Main))
    );
}

#[test]
fn free_function_in_namespace() {
    let src = r#"
namespace io {
    int connect(const char *host) { return 0; }
}
"#;
    let facts = CppExtractor.extract(src, "src/net/sock.cpp").unwrap();
    let f = by_name(&facts, "connect").unwrap();
    assert_eq!(f.kind, SymbolKind::Function);
    assert_eq!(
        f.id.to_scip_string(),
        "codegraph . . . net/sock/io/connect()."
    );
    assert_eq!(facts.lang, "cpp");
}

#[test]
fn class_visibility() {
    let src = r#"
namespace io {
    class Sock {
    public:
        void open();
    private:
        void shutdown();
    };
}
"#;
    let facts = CppExtractor.extract(src, "src/net/sock.cpp").unwrap();

    let sock = by_name(&facts, "Sock").unwrap();
    assert_eq!(sock.kind, SymbolKind::Class);
    assert_eq!(
        sock.id.to_scip_string(),
        "codegraph . . . net/sock/io/Sock#"
    );

    // public: section → Visibility::Public
    let open = by_name(&facts, "open").unwrap();
    assert_eq!(open.kind, SymbolKind::Method);
    assert_eq!(open.visibility, Visibility::Public);
    assert_eq!(
        open.id.to_scip_string(),
        "codegraph . . . net/sock/io/Sock#open()."
    );

    // private: section — must emit with Visibility::Private
    let shutdown = by_name(&facts, "shutdown").unwrap();
    assert_eq!(shutdown.kind, SymbolKind::Method);
    assert_eq!(shutdown.visibility, Visibility::Private);
    assert_eq!(
        shutdown.id.to_scip_string(),
        "codegraph . . . net/sock/io/Sock#shutdown()."
    );
}

#[test]
fn struct_field_default_public() {
    let src = r#"
struct Point {
    int x;
    int y;
};
"#;
    let facts = CppExtractor.extract(src, "src/geo.cpp").unwrap();

    let point = by_name(&facts, "Point").unwrap();
    assert_eq!(point.kind, SymbolKind::Struct);
    assert_eq!(point.id.to_scip_string(), "codegraph . . . geo/Point#");

    // struct members default to Public
    let x = by_name(&facts, "x").unwrap();
    assert_eq!(x.kind, SymbolKind::Static);
    assert_eq!(x.visibility, Visibility::Public);
    assert_eq!(x.id.to_scip_string(), "codegraph . . . geo/Point#x.");

    let y = by_name(&facts, "y").unwrap();
    assert_eq!(y.visibility, Visibility::Public);
}

#[test]
fn enum_and_alias() {
    let src = r#"
enum Color { Red, Green };
using Id = int;
typedef int Handle;
"#;
    let facts = CppExtractor.extract(src, "src/types.cpp").unwrap();

    let color = by_name(&facts, "Color").unwrap();
    assert_eq!(color.kind, SymbolKind::Enum);
    assert_eq!(color.id.to_scip_string(), "codegraph . . . types/Color#");

    let id = by_name(&facts, "Id").unwrap();
    assert_eq!(id.kind, SymbolKind::TypeAlias);
    assert_eq!(id.id.to_scip_string(), "codegraph . . . types/Id#");

    let handle = by_name(&facts, "Handle").unwrap();
    assert_eq!(handle.kind, SymbolKind::TypeAlias);
    assert_eq!(handle.id.to_scip_string(), "codegraph . . . types/Handle#");
}

#[test]
fn define_macro() {
    let src = r#"
#define MAX_CONN 64
"#;
    let facts = CppExtractor.extract(src, "src/conf.hpp").unwrap();
    let m = by_name(&facts, "MAX_CONN").unwrap();
    assert_eq!(m.kind, SymbolKind::Const);
    assert_eq!(m.id.to_scip_string(), "codegraph . . . conf/MAX_CONN!");
}

#[test]
fn cpp_extracts_call_references() {
    let src = r#"
void run() {
    connect("host");
    obj.handle();
}
"#;
    let facts = CppExtractor.extract(src, "src/main.cpp").unwrap();
    let names: Vec<&str> = facts.references.iter().map(|r| r.name.as_str()).collect();
    assert!(
        names.contains(&"connect"),
        "expected 'connect' in {names:?}"
    );
    assert!(names.contains(&"handle"), "expected 'handle' in {names:?}");
}

#[test]
fn cpp_this_receiver_call_marks_self_receiver() {
    let src = r#"
struct S {
    void foo() {}
    void run() { this->foo(); }
};
"#;
    let facts = CppExtractor.extract(src, "src/s.cpp").unwrap();
    let foo_call = facts
        .references
        .iter()
        .find(|r| r.role == RefRole::Call && r.name == "foo")
        .expect("expected a Call reference for 'foo'");
    assert!(
        foo_call.self_receiver,
        "this->foo() should mark self_receiver = true"
    );
    assert_eq!(
        foo_call.qualifier, None,
        "self-call qualifier must stay None"
    );
}

#[test]
fn cpp_non_self_receiver_call_does_not_mark_self_receiver() {
    let src = r#"
struct S {
    void foo() {}
    void run(S* obj) { obj->foo(); }
};
"#;
    let facts = CppExtractor.extract(src, "src/s.cpp").unwrap();
    let foo_calls: Vec<_> = facts
        .references
        .iter()
        .filter(|r| r.role == RefRole::Call && r.name == "foo")
        .collect();
    assert!(
        foo_calls.iter().any(|r| !r.self_receiver),
        "obj->foo() must NOT mark self_receiver, got {foo_calls:?}"
    );
}

#[test]
fn inherit_single_public_base() {
    let src = "class Derived : public Base {};";
    let facts = CppExtractor.extract(src, "src/foo.cpp").unwrap();
    let inherit: Vec<&str> = facts
        .references
        .iter()
        .filter(|r| r.role == RefRole::IsImplementation)
        .map(|r| r.name.as_str())
        .collect();
    assert_eq!(inherit, vec!["Base"], "expected [Base], got {inherit:?}");
}

#[test]
fn inherit_struct_multiple_bases() {
    let src = "struct S : A, B {};";
    let facts = CppExtractor.extract(src, "src/foo.cpp").unwrap();
    let mut inherit: Vec<&str> = facts
        .references
        .iter()
        .filter(|r| r.role == RefRole::IsImplementation)
        .map(|r| r.name.as_str())
        .collect();
    inherit.sort_unstable();
    assert_eq!(inherit, vec!["A", "B"], "expected [A, B], got {inherit:?}");
}

#[test]
fn inherit_qualified_base_strips_namespace() {
    let src = "class X : public ns::Base {};";
    let facts = CppExtractor.extract(src, "src/foo.cpp").unwrap();
    let inherit: Vec<&str> = facts
        .references
        .iter()
        .filter(|r| r.role == RefRole::IsImplementation)
        .map(|r| r.name.as_str())
        .collect();
    assert_eq!(inherit, vec!["Base"], "expected [Base], got {inherit:?}");
}

// ── Tier-B scope / binding tests ─────────────────────────────────────────

#[test]
fn params_emit_param_bindings() {
    // `void add(int a, int b){}` → Param `a`, `b` in Function scope.
    let src = "void add(int a, int b){}\n";
    let facts = CppExtractor.extract(src, "src/math.cpp").unwrap();

    let fn_scope_id = facts
        .scopes
        .iter()
        .position(|s| s.kind == ScopeKind::Function)
        .expect("expected a Function scope");

    let mut param_names: Vec<(&str, ScopeId)> = facts
        .bindings
        .iter()
        .filter(|b| b.kind == BindingKind::Param)
        .map(|b| (b.name.as_str(), b.scope))
        .collect();
    param_names.sort_by_key(|(n, _)| *n);

    assert_eq!(
        param_names,
        vec![("a", fn_scope_id), ("b", fn_scope_id)],
        "expected Param bindings for a and b, got {param_names:?}"
    );
}

#[test]
fn reference_param_emits_param_binding() {
    // `void inc(int& r){}` → Param `r` (exercises reference_declarator unwrap).
    let src = "void inc(int& r){}\n";
    let facts = CppExtractor.extract(src, "src/inc.cpp").unwrap();

    let r = facts
        .bindings
        .iter()
        .find(|b| b.kind == BindingKind::Param && b.name == "r")
        .expect("expected a Param binding for 'r'");
    assert_eq!(
        facts.scopes[r.scope].kind,
        ScopeKind::Function,
        "reference param 'r' should be in a Function scope"
    );
}

#[test]
fn optional_param_emits_param_binding() {
    // `void f(int x, int y = 0){}` → Param `x`, `y` (optional_parameter_declaration).
    let src = "void f(int x, int y = 0){}\n";
    let facts = CppExtractor.extract(src, "src/f.cpp").unwrap();

    let mut param_names: Vec<&str> = facts
        .bindings
        .iter()
        .filter(|b| b.kind == BindingKind::Param)
        .map(|b| b.name.as_str())
        .collect();
    param_names.sort_unstable();
    assert_eq!(
        param_names,
        vec!["x", "y"],
        "expected Param bindings for x and y, got {param_names:?}"
    );
}

#[test]
fn cpp_pointer_return_function_params_collected() {
    // `char* dup(const char* s){return 0;}` — pointer_declarator wraps the
    // function_declarator; find_function_declarator must reach the parameters.
    let src = "char* dup(const char* s){return 0;}\n";
    let facts = CppExtractor.extract(src, "src/dup.cpp").unwrap();

    let s = facts
        .bindings
        .iter()
        .find(|b| b.kind == BindingKind::Param && b.name == "s")
        .expect("pointer-return function's param 's' should be collected");
    assert_eq!(
        facts.scopes[s.scope].kind,
        ScopeKind::Function,
        "param 's' should be in a Function scope"
    );
}

#[test]
fn cpp_local_var_emits_local_binding() {
    // `void f(){ int x = 0; }` → Local `x` in a Function or Block scope.
    let src = "void f(){ int x = 0; }\n";
    let facts = CppExtractor.extract(src, "src/f.cpp").unwrap();

    let x = facts
        .bindings
        .iter()
        .find(|b| b.kind == BindingKind::Local && b.name == "x")
        .expect("expected a Local binding for 'x'");
    assert_ne!(x.scope, 0, "local 'x' must NOT be in scope 0 (file root)");
    assert!(
        matches!(
            facts.scopes[x.scope].kind,
            ScopeKind::Function | ScopeKind::Block
        ),
        "local 'x' scope must be Function or Block, got {:?}",
        facts.scopes[x.scope].kind
    );
}

#[test]
fn range_for_emits_local_binding() {
    // `void f(){ int a[3]={}; for (int v : a){} }` → Local `v`.
    let src = "void f(){ int a[3]={}; for (int v : a){} }\n";
    let facts = CppExtractor.extract(src, "src/f.cpp").unwrap();

    let v = facts
        .bindings
        .iter()
        .find(|b| b.kind == BindingKind::Local && b.name == "v")
        .expect("expected a Local binding for 'v'");
    assert_ne!(v.scope, 0, "range-for 'v' must NOT be in scope 0");
}

#[test]
fn namespace_global_not_a_local() {
    // `namespace ns { int g; void f(){} }` → NO Local `g`; Definition `g` exists.
    let src = "namespace ns { int g; void f(){} }\n";
    let facts = CppExtractor.extract(src, "src/ns.cpp").unwrap();

    assert!(
        !facts
            .bindings
            .iter()
            .any(|b| b.kind == BindingKind::Local && b.name == "g"),
        "namespace global 'g' must NOT be a Local binding"
    );
    assert!(
        facts
            .bindings
            .iter()
            .any(|b| b.kind == BindingKind::Definition && b.name == "g"),
        "namespace global 'g' must have a Definition binding"
    );
}

#[test]
fn class_fields_not_locals() {
    // `struct P { int x; int y; };` → NO Local x/y; Definition x/y exist.
    let src = "struct P { int x; int y; };\n";
    let facts = CppExtractor.extract(src, "src/p.cpp").unwrap();

    assert!(
        !facts
            .bindings
            .iter()
            .any(|b| b.kind == BindingKind::Local && (b.name == "x" || b.name == "y")),
        "class fields must NOT be Local bindings"
    );
    assert!(
        facts
            .bindings
            .iter()
            .any(|b| b.kind == BindingKind::Definition && b.name == "x"),
        "struct field 'x' must have a Definition binding"
    );
    assert!(
        facts
            .bindings
            .iter()
            .any(|b| b.kind == BindingKind::Definition && b.name == "y"),
        "struct field 'y' must have a Definition binding"
    );
}

#[test]
fn nesting_produces_type_and_function_scopes() {
    // `struct S { void m(){ int v=0; } };` → Module(0) + Type + Function; Local v in Function.
    let src = "struct S { void m(){ int v=0; } };\n";
    let facts = CppExtractor.extract(src, "src/s.cpp").unwrap();

    let has_type = facts.scopes.iter().any(|s| s.kind == ScopeKind::Type);
    let has_fn = facts.scopes.iter().any(|s| s.kind == ScopeKind::Function);
    assert!(has_type, "expected a Type scope for struct body");
    assert!(has_fn, "expected a Function scope for method body");

    let v = facts
        .bindings
        .iter()
        .find(|b| b.kind == BindingKind::Local && b.name == "v")
        .expect("expected a Local binding for 'v'");
    assert!(
        matches!(
            facts.scopes[v.scope].kind,
            ScopeKind::Function | ScopeKind::Block
        ),
        "local 'v' must be in a Function or Block scope"
    );
}

#[test]
fn namespace_body_opens_type_scope() {
    // `namespace io { void f(){} }` → >=3 scopes incl a Type for the namespace body.
    let src = "namespace io { void f(){} }\n";
    let facts = CppExtractor.extract(src, "src/io.cpp").unwrap();

    assert!(
        facts.scopes.len() >= 3,
        "expected at least 3 scopes (Module + Type for namespace + Function), got {}",
        facts.scopes.len()
    );
    assert!(
        facts.scopes.iter().any(|s| s.kind == ScopeKind::Type),
        "expected a Type scope for namespace body"
    );
}

#[test]
fn cpp_lambda_params_emit_param_bindings() {
    // `void f(){ auto fn = [](int x, int y){}; }` → Param x, y.
    let src = "void f(){ auto fn = [](int x, int y){}; }\n";
    let facts = CppExtractor.extract(src, "src/f.cpp").unwrap();

    let mut param_names: Vec<&str> = facts
        .bindings
        .iter()
        .filter(|b| b.kind == BindingKind::Param)
        .map(|b| b.name.as_str())
        .collect();
    param_names.sort_unstable();
    assert_eq!(
        param_names,
        vec!["x", "y"],
        "expected Param bindings for lambda params x and y, got {param_names:?}"
    );
}

#[test]
fn cpp_same_file_call_ref_has_non_zero_scope_and_callee_has_definition() {
    // Two non-static funcs where one calls the other.
    // Assert: Definition binding for callee exists AND the call Reference has scope == Some(non-zero).
    let src = "int helper(){return 0;}\nint caller(){return helper();}\n";
    let facts = CppExtractor.extract(src, "src/pair.cpp").unwrap();

    // Definition binding for `helper` must exist.
    assert!(
        facts
            .bindings
            .iter()
            .any(|b| b.kind == BindingKind::Definition && b.name == "helper"),
        "expected a Definition binding for 'helper'"
    );

    // The `helper()` call reference must have a non-zero (non-module) scope.
    let call_ref = facts
        .references
        .iter()
        .find(|r| r.role == RefRole::Call && r.name == "helper")
        .expect("expected a Call ref for 'helper'");
    assert!(
        call_ref.scope.is_some() && call_ref.scope != Some(0),
        "helper() call ref must be in a non-zero scope, got {:?}",
        call_ref.scope
    );
}

#[test]
fn out_of_line_method_param_collected() {
    // `class Foo {};\nvoid Foo::bar(int a){}\n` → Param `a` in a Function scope.
    let src = "class Foo {};\nvoid Foo::bar(int a){}\n";
    let facts = CppExtractor.extract(src, "src/foo.cpp").unwrap();

    let a = facts
        .bindings
        .iter()
        .find(|b| b.kind == BindingKind::Param && b.name == "a")
        .expect("expected a Param binding for 'a' in out-of-line method");
    assert_eq!(
        facts.scopes[a.scope].kind,
        ScopeKind::Function,
        "param 'a' should be in a Function scope"
    );
}

// ── Edge richness: Read / Write ──────────────────────────────────────────

#[test]
fn cpp_read_ref_at_use_not_at_decl() {
    // `int f() { int base = 1; return base; }`
    // → Read ref for `base` at `return base`; the declarator `base` must NOT be Read.
    let src = "int f() { int base = 1; return base; }\n";
    let facts = CppExtractor.extract(src, "src/f.cpp").unwrap();
    let read_refs: Vec<_> = facts
        .references
        .iter()
        .filter(|r| r.role == RefRole::Read && r.name == "base")
        .collect();
    assert!(
        !read_refs.is_empty(),
        "expected at least one Read ref for 'base', got none"
    );
    // The `return base` starts after the init declarator (byte > 20).
    // In `int f() { int base = 1; return base; }`, `return` is near byte 27.
    let use_ref = read_refs
        .iter()
        .find(|r| r.occ.byte > 20)
        .expect("expected Read ref for 'base' in the return statement (byte > 20)");
    assert!(
        use_ref.occ.byte > 20,
        "Read ref should be at the use site, not the declaration"
    );
}

#[test]
fn cpp_write_ref_emitted_for_assignment() {
    // `void f() { int cnt = 0; cnt = 5; }` → Write ref for `cnt` in `cnt = 5`.
    let src = "void f() { int cnt = 0; cnt = 5; }\n";
    let facts = CppExtractor.extract(src, "src/f.cpp").unwrap();
    let write_refs: Vec<_> = facts
        .references
        .iter()
        .filter(|r| r.role == RefRole::Write && r.name == "cnt")
        .collect();
    assert!(
        !write_refs.is_empty(),
        "expected at least one Write ref for 'cnt', got none — all refs: {:?}",
        facts
            .references
            .iter()
            .map(|r| (&r.name, r.role))
            .collect::<Vec<_>>()
    );
}

#[test]
fn cpp_call_not_also_read() {
    // `void f() { helper(); }` → Call ref "helper", but NOT also a Read ref.
    let src = "void f() { helper(); }\n";
    let facts = CppExtractor.extract(src, "src/f.cpp").unwrap();
    let call_refs: Vec<_> = facts
        .references
        .iter()
        .filter(|r| r.role == RefRole::Call && r.name == "helper")
        .collect();
    assert!(!call_refs.is_empty(), "expected a Call ref for 'helper'");
    let read_refs: Vec<_> = facts
        .references
        .iter()
        .filter(|r| r.role == RefRole::Read && r.name == "helper")
        .collect();
    assert!(
        read_refs.is_empty(),
        "helper() must NOT produce a Read ref; got: {read_refs:?}"
    );
}

#[test]
fn field_access_reads_ptr_not_field() {
    // `int f(S* ptr) { return ptr->field; }`
    // → Read "ptr" (the object), no Read "field" (field_identifier, not identifier).
    let src = "struct S { int field; };\nint f(S* ptr) { return ptr->field; }\n";
    let facts = CppExtractor.extract(src, "src/f.cpp").unwrap();
    // `ptr` should be a Read ref (it is an identifier in value position).
    let ptr_reads: Vec<_> = facts
        .references
        .iter()
        .filter(|r| r.role == RefRole::Read && r.name == "ptr")
        .collect();
    assert!(
        !ptr_reads.is_empty(),
        "expected a Read ref for 'ptr', got none"
    );
    // `field` is a `field_identifier` — must NOT appear as a Read ref.
    let field_reads: Vec<_> = facts
        .references
        .iter()
        .filter(|r| r.role == RefRole::Read && r.name == "field")
        .collect();
    assert!(
        field_reads.is_empty(),
        "field_identifier 'field' must NOT be a Read ref; got: {field_reads:?}"
    );
}

// ── TypeRef tests ────────────────────────────────────────────────────────

#[test]
fn cpp_type_ref_param_type() {
    // `void f(Config c) {}` → TypeRef "Config" ctx ParameterType.
    let src = "void f(Config c) {}\n";
    let facts = CppExtractor.extract(src, "src/f.cpp").unwrap();
    let r = facts
        .references
        .iter()
        .find(|r| r.role == RefRole::TypeRef && r.name == "Config")
        .expect("expected TypeRef ref for 'Config'");
    assert_eq!(
        r.type_ref_ctx,
        Some(TypeRefContext::ParameterType),
        "expected ParameterType ctx, got {:?}",
        r.type_ref_ctx
    );
}

#[test]
fn cpp_type_ref_return_type() {
    // `Config make() { return Config(); }` → TypeRef "Config" ctx ReturnType.
    let src = "Config make() { return Config(); }\n";
    let facts = CppExtractor.extract(src, "src/f.cpp").unwrap();
    let r = facts
        .references
        .iter()
        .find(|r| r.role == RefRole::TypeRef && r.name == "Config")
        .expect("expected TypeRef ref for 'Config'");
    assert_eq!(
        r.type_ref_ctx,
        Some(TypeRefContext::ReturnType),
        "expected ReturnType ctx, got {:?}",
        r.type_ref_ctx
    );
}

#[test]
fn type_ref_field_type() {
    // `struct T { Config conf; };` → TypeRef "Config" ctx Field.
    let src = "struct T { Config conf; };\n";
    let facts = CppExtractor.extract(src, "src/f.cpp").unwrap();
    let r = facts
        .references
        .iter()
        .find(|r| r.role == RefRole::TypeRef && r.name == "Config")
        .expect("expected TypeRef ref for 'Config'");
    assert_eq!(
        r.type_ref_ctx,
        Some(TypeRefContext::Field),
        "expected Field ctx, got {:?}",
        r.type_ref_ctx
    );
}

#[test]
fn type_ref_template_arg() {
    // `void f(std::vector<Config> xs) {}`
    // → TypeRef "vector" (ParameterType) + TypeRef "Config" (GenericArg).
    let src = "void f(std::vector<Config> xs) {}\n";
    let facts = CppExtractor.extract(src, "src/f.cpp").unwrap();
    let type_refs: Vec<_> = facts
        .references
        .iter()
        .filter(|r| r.role == RefRole::TypeRef)
        .collect();
    // "vector" comes from the template_type base (qualified_identifier leaf).
    let vector_ref = type_refs.iter().find(|r| r.name == "vector");
    assert!(
        vector_ref.is_some(),
        "expected TypeRef 'vector', got: {:?}",
        type_refs.iter().map(|r| &r.name).collect::<Vec<_>>()
    );
    assert_eq!(
        vector_ref.unwrap().type_ref_ctx,
        Some(TypeRefContext::ParameterType),
        "expected ParameterType ctx for 'vector'"
    );
    // "Config" comes from the template_argument_list (GenericArg).
    let config_ref = type_refs.iter().find(|r| r.name == "Config");
    assert!(
        config_ref.is_some(),
        "expected TypeRef 'Config', got: {:?}",
        type_refs.iter().map(|r| &r.name).collect::<Vec<_>>()
    );
    assert_eq!(
        config_ref.unwrap().type_ref_ctx,
        Some(TypeRefContext::GenericArg),
        "expected GenericArg ctx for 'Config'"
    );
}

#[test]
fn type_ref_primitive_skipped() {
    // `void f(int n) {}` → NO TypeRef "int".
    let src = "void f(int n) {}\n";
    let facts = CppExtractor.extract(src, "src/f.cpp").unwrap();
    let int_typerefs: Vec<_> = facts
        .references
        .iter()
        .filter(|r| r.role == RefRole::TypeRef && r.name == "int")
        .collect();
    assert!(
        int_typerefs.is_empty(),
        "primitive 'int' must NOT produce a TypeRef, got: {int_typerefs:?}"
    );
}

// ── Visibility tests ─────────────────────────────────────────────────────

#[test]
fn class_public_member_tagged_public() {
    // `public:` section → Visibility::Public
    let src = "class Foo { public: void go(); };\n";
    let facts = CppExtractor.extract(src, "src/foo.cpp").unwrap();
    let go = by_name(&facts, "go").unwrap();
    assert_eq!(
        go.visibility,
        Visibility::Public,
        "public: member must be Public"
    );
}

#[test]
fn class_private_member_emitted_and_tagged_private() {
    // `private:` section → emitted with Visibility::Private
    let src = "class Foo { private: void secret(); };\n";
    let facts = CppExtractor.extract(src, "src/foo.cpp").unwrap();
    let secret = by_name(&facts, "secret").expect("private member 'secret' must emit");
    assert_eq!(
        secret.visibility,
        Visibility::Private,
        "private: member must be Private"
    );
}

#[test]
fn class_protected_member_emitted_and_tagged_protected() {
    // `protected:` section → emitted with Visibility::Protected
    let src = "class Foo { protected: void hook(); };\n";
    let facts = CppExtractor.extract(src, "src/foo.cpp").unwrap();
    let hook = by_name(&facts, "hook").expect("protected member 'hook' must emit");
    assert_eq!(
        hook.visibility,
        Visibility::Protected,
        "protected: member must be Protected"
    );
}

#[test]
fn class_default_member_is_private() {
    // class with no access specifier → default Private
    let src = "class Foo { void hidden(); };\n";
    let facts = CppExtractor.extract(src, "src/foo.cpp").unwrap();
    let hidden = by_name(&facts, "hidden").expect("class member with no specifier must emit");
    assert_eq!(
        hidden.visibility,
        Visibility::Private,
        "class default must be Private"
    );
}

#[test]
fn struct_default_member_is_public() {
    // struct with no access specifier → default Public
    let src = "struct Bar { int val; };\n";
    let facts = CppExtractor.extract(src, "src/bar.cpp").unwrap();
    let val = by_name(&facts, "val").expect("struct member with no specifier must emit");
    assert_eq!(
        val.visibility,
        Visibility::Public,
        "struct default must be Public"
    );
}

#[test]
fn static_file_level_fn_is_private() {
    // `static void impl(){}` → internal linkage → Visibility::Private
    let src = "static void impl(){}\n";
    let facts = CppExtractor.extract(src, "src/util.cpp").unwrap();
    let impl_sym = by_name(&facts, "impl").expect("static file-level fn must emit");
    assert_eq!(
        impl_sym.visibility,
        Visibility::Private,
        "static (internal-linkage) fn must be Private"
    );
}

#[test]
fn non_static_file_level_fn_is_public() {
    // `void pub_fn(){}` → external linkage → Visibility::Public
    let src = "void pub_fn(){}\n";
    let facts = CppExtractor.extract(src, "src/util.cpp").unwrap();
    let f = by_name(&facts, "pub_fn").unwrap();
    assert_eq!(
        f.visibility,
        Visibility::Public,
        "non-static fn must be Public"
    );
}

#[test]
fn mixed_access_specifiers_all_members_emit() {
    // Class with public/private/protected sections — all members must emit.
    let src = r#"
class Widget {
public:
    void show();
protected:
    void draw();
private:
    void impl();
};
"#;
    let facts = CppExtractor.extract(src, "src/widget.cpp").unwrap();
    let show = by_name(&facts, "show").expect("show must emit");
    assert_eq!(show.visibility, Visibility::Public);
    let draw = by_name(&facts, "draw").expect("draw must emit");
    assert_eq!(draw.visibility, Visibility::Protected);
    let impl_m = by_name(&facts, "impl").expect("impl must emit");
    assert_eq!(impl_m.visibility, Visibility::Private);
}

// ── Local-typed-call facts: receiver qualifier + binding type_name ───────

#[test]
fn receiver_qualifier_dot_call_sets_qualifier() {
    // `repo.save()` on a local — the `save` Call ref carries qualifier `repo`.
    let src = "void run(){ Repo repo; repo.save(); }";
    let facts = CppExtractor.extract(src, "src/c.cpp").unwrap();
    let r = facts
        .references
        .iter()
        .find(|r| r.role == RefRole::Call && r.name == "save")
        .expect("expected a Call ref for 'save'");
    assert_eq!(r.qualifier.as_deref(), Some("repo"));
    assert!(!r.self_receiver);
}

#[test]
fn receiver_qualifier_arrow_call_sets_qualifier() {
    // `repo->save()` on a pointer local — same `field_expression` node kind,
    // so the receiver query captures `repo` for the arrow form too.
    let src = "void run(Repo* repo){ repo->save(); }";
    let facts = CppExtractor.extract(src, "src/c.cpp").unwrap();
    let r = facts
        .references
        .iter()
        .find(|r| r.role == RefRole::Call && r.name == "save")
        .expect("expected a Call ref for 'save'");
    assert_eq!(r.qualifier.as_deref(), Some("repo"));
}

#[test]
fn this_arrow_call_unaffected_by_receiver_query() {
    // `this->save()` — still marked self_receiver, qualifier stays None.
    let src = "struct C { void save(); void run(){ this->save(); } };";
    let facts = CppExtractor.extract(src, "src/c.cpp").unwrap();
    let r = facts
        .references
        .iter()
        .find(|r| r.role == RefRole::Call && r.name == "save")
        .expect("expected a Call ref for 'save'");
    assert!(r.self_receiver, "this->save() should stay self_receiver");
    assert_eq!(r.qualifier, None);
}

#[test]
fn cpp_typed_local_and_param_set_binding_type_name() {
    // Local `Foo x;` and param `Baz p` carry their types; `auto a = …`
    // stays None (an inferred type is never guessed).
    let src = "void run(Baz p){ Foo x; auto a = 1; x.f(); a.g(); p.h(); }";
    let facts = CppExtractor.extract(src, "src/c.cpp").unwrap();
    let ty = |n: &str| {
        facts
            .bindings
            .iter()
            .find(|b| b.name == n)
            .and_then(|b| b.declared_type.clone())
    };
    assert_eq!(ty("x").as_deref(), Some("Foo"), "declared local type");
    assert_eq!(ty("p").as_deref(), Some("Baz"), "param type");
    assert_eq!(ty("a"), None, "auto local must not carry a type");
}
