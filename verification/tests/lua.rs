use codegraph::extract::lua::LuaExtractor;
use codegraph::extract::Extractor;
use codegraph::graph::types::{FileFacts, RefRole, Symbol, SymbolKind};

fn extract(src: &str, file: &str) -> FileFacts {
    LuaExtractor.extract(src, file).unwrap()
}

fn by_name(facts: &FileFacts, name: &str) -> Option<Symbol> {
    facts.symbols.iter().find(|s| s.name == name).cloned()
}

// ── Definitions ──────────────────────────────────────────────────────────

#[test]
fn global_function_is_extracted() {
    // File `src/util.lua` → namespace = ["util"]
    // foo → descriptors: [Namespace("util"), Method { name: "foo" }]
    // SCIP: "codegraph . . . util/foo()."
    let src = "function foo() end";
    let facts = extract(src, "src/util.lua");

    let foo = by_name(&facts, "foo").unwrap();
    assert_eq!(foo.kind, SymbolKind::Function);
    // Verify SCIP string contains the function descriptor rendering.
    let scip = foo.id.to_scip_string();
    assert!(
        scip.contains("util") && scip.contains("foo"),
        "unexpected SCIP string: {scip}"
    );
    assert_eq!(facts.lang, "lua");
}

#[test]
fn table_dot_method_is_extracted_as_method_under_type() {
    let src = "function M.baz(x) end";
    let facts = extract(src, "src/util.lua");

    let baz = by_name(&facts, "baz").unwrap();
    assert_eq!(baz.kind, SymbolKind::Method);
    // SCIP should encode M as a Type descriptor and baz as Method.
    let scip = baz.id.to_scip_string();
    assert!(
        scip.contains("M#") && scip.contains("baz"),
        "unexpected SCIP string: {scip}"
    );
}

#[test]
fn table_colon_method_is_extracted_as_method_under_type() {
    let src = "function M:qux() end";
    let facts = extract(src, "src/util.lua");

    let qux = by_name(&facts, "qux").unwrap();
    assert_eq!(qux.kind, SymbolKind::Method);
    let scip = qux.id.to_scip_string();
    assert!(
        scip.contains("M#") && scip.contains("qux"),
        "unexpected SCIP string: {scip}"
    );
}

#[test]
fn local_function_is_extracted_as_function() {
    let src = "local function bar() end";
    let facts = extract(src, "src/util.lua");

    let bar = by_name(&facts, "bar").unwrap();
    assert_eq!(bar.kind, SymbolKind::Function);
}

#[test]
fn local_table_is_extracted_as_module() {
    let src = "local M = {}";
    let facts = extract(src, "src/util.lua");

    let m = by_name(&facts, "M").unwrap();
    assert_eq!(m.kind, SymbolKind::Module);
}

// ── References ───────────────────────────────────────────────────────────

#[test]
fn free_call_is_captured_as_call_ref() {
    let src = "function run() foo() end";
    let facts = extract(src, "src/util.lua");

    let call_ref = facts.references.iter().find(|r| r.name == "foo").unwrap();
    assert_eq!(call_ref.role, RefRole::Call);
}

#[test]
fn member_call_captures_qualifier() {
    let src = "function run() a.bar() end";
    let facts = extract(src, "src/util.lua");

    let bar_ref = facts
        .references
        .iter()
        .find(|r| r.name == "bar")
        .expect("expected Call ref for 'bar'");
    assert_eq!(bar_ref.role, RefRole::Call);
    assert_eq!(
        bar_ref.qualifier.as_deref(),
        Some("a"),
        "expected qualifier 'a' on the bar call ref"
    );
}

#[test]
fn require_produces_import_reference() {
    let src = "local sub = require('pkg.sub')";
    let facts = extract(src, "src/util.lua");

    let import_ref = facts
        .references
        .iter()
        .find(|r| r.role == RefRole::Import)
        .expect("expected an Import ref from require");
    // Leaf name is `sub` (last `.`-segment)
    assert_eq!(import_ref.name, "sub");
    assert!(
        import_ref
            .from_path
            .as_deref()
            .is_some_and(|p| p.contains("pkg.sub")),
        "from_path should contain 'pkg.sub', got {:?}",
        import_ref.from_path
    );
}

#[test]
fn require_is_not_emitted_as_plain_call() {
    let src = "local sub = require('pkg.sub')";
    let facts = extract(src, "src/util.lua");

    let require_calls: Vec<_> = facts
        .references
        .iter()
        .filter(|r| r.role == RefRole::Call && r.name == "require")
        .collect();
    assert!(
        require_calls.is_empty(),
        "require should not appear as a Call ref"
    );
}

// ── Read / write references ──────────────────────────────────────────────

fn has_ref(facts: &FileFacts, role: RefRole, name: &str) -> bool {
    facts
        .references
        .iter()
        .any(|r| r.role == role && r.name == name)
}

#[test]
fn reassignment_emits_write_and_reads() {
    // `count = count + bonus` is a re-assignment (not a `local`): the LHS is a
    // Write; both RHS identifiers are Reads.
    let src = "function run() local count = 0 count = count + bonus end";
    let facts = extract(src, "src/util.lua");

    assert!(
        has_ref(&facts, RefRole::Write, "count"),
        "expected a Write ref for the assignment target 'count'"
    );
    assert!(
        has_ref(&facts, RefRole::Read, "bonus"),
        "expected a Read ref for 'bonus' on the RHS"
    );
    assert!(
        has_ref(&facts, RefRole::Read, "count"),
        "expected a Read ref for the RHS use of 'count'"
    );
}

#[test]
fn local_declaration_is_not_a_write() {
    // `local total = compute()` introduces a binding — not a Write.
    let src = "function run() local total = compute() end";
    let facts = extract(src, "src/util.lua");

    assert!(
        !has_ref(&facts, RefRole::Write, "total"),
        "a `local` declaration must not emit a Write ref"
    );
    // The declared name is a binding, not a Read either.
    assert!(
        !has_ref(&facts, RefRole::Read, "total"),
        "the declared name must not be emitted as a Read"
    );
}

#[test]
fn read_of_global_in_call_arg() {
    // `config` is read as an argument; `print` is the call callee, not a Read.
    let src = "function run() print(config) end";
    let facts = extract(src, "src/util.lua");

    assert!(
        has_ref(&facts, RefRole::Read, "config"),
        "expected a Read ref for the argument 'config'"
    );
    assert!(
        !has_ref(&facts, RefRole::Read, "print"),
        "a call callee must not also be a Read ref"
    );
}

#[test]
fn member_access_base_is_read_leaf_is_not() {
    // `value = source.field` — `source` (base) is a Read; `field` (leaf) is not.
    let src = "function run() value = source.field end";
    let facts = extract(src, "src/util.lua");

    assert!(
        has_ref(&facts, RefRole::Read, "source"),
        "the base of a member access should be a Read ref"
    );
    assert!(
        !has_ref(&facts, RefRole::Read, "field"),
        "the leaf of a member access must not be a Read ref"
    );
}
