use codegraph::extract::dart::DartExtractor;
use codegraph::extract::Extractor;
use codegraph::graph::types::{BindingKind, FileFacts, RefRole, Symbol, SymbolKind, Visibility};

fn extract(src: &str, file: &str) -> FileFacts {
    DartExtractor.extract(src, file).unwrap()
}

fn by_name(facts: &FileFacts, name: &str) -> Option<Symbol> {
    facts.symbols.iter().find(|s| s.name == name).cloned()
}

// ── Definitions ──────────────────────────────────────────────────────────

#[test]
fn dart_class_and_method_get_correct_scip_strings() {
    // File `lib/models/user.dart` → namespace = ["models", "user"]
    let src = r#"
class User {
  String getName() { return ''; }
}
"#;
    let facts = extract(src, "lib/models/user.dart");

    let user = by_name(&facts, "User").unwrap();
    assert_eq!(user.kind, SymbolKind::Class);
    assert_eq!(
        user.id.to_scip_string(),
        "codegraph . . . models/user/User#"
    );

    let get_name = by_name(&facts, "getName").unwrap();
    assert_eq!(get_name.kind, SymbolKind::Method);
    assert_eq!(
        get_name.id.to_scip_string(),
        "codegraph . . . models/user/User#getName()."
    );

    assert_eq!(facts.lang, "dart");
}

#[test]
fn top_level_function_is_extracted() {
    let src = r#"
void greet(String name) {
  print(name);
}
"#;
    let facts = extract(src, "lib/utils/greeter.dart");
    let greet = by_name(&facts, "greet").unwrap();
    assert_eq!(greet.kind, SymbolKind::Function);
    assert_eq!(
        greet.id.to_scip_string(),
        "codegraph . . . utils/greeter/greet()."
    );
}

#[test]
fn leading_underscore_maps_to_internal_visibility() {
    let src = r#"
void _private() {}
void publicFn() {}

class _Hidden {}
class Shown {}
"#;
    let facts = extract(src, "lib/models/visibility.dart");

    let private_fn = by_name(&facts, "_private").unwrap();
    assert_eq!(private_fn.visibility, Visibility::Internal);

    let public_fn = by_name(&facts, "publicFn").unwrap();
    assert_eq!(public_fn.visibility, Visibility::Public);

    let hidden_class = by_name(&facts, "_Hidden").unwrap();
    assert_eq!(hidden_class.visibility, Visibility::Internal);

    let shown_class = by_name(&facts, "Shown").unwrap();
    assert_eq!(shown_class.visibility, Visibility::Public);
}

#[test]
fn mixin_is_extracted_as_trait() {
    let src = r#"
mixin Flyable on Animal {
  void fly() {}
}
"#;
    let facts = extract(src, "lib/mixins/flyable.dart");
    let mixin = by_name(&facts, "Flyable").unwrap();
    assert_eq!(mixin.kind, SymbolKind::Trait);
    assert_eq!(
        mixin.id.to_scip_string(),
        "codegraph . . . mixins/flyable/Flyable#"
    );
}

#[test]
fn enum_and_constants_are_extracted() {
    let src = r#"
enum Color { red, green, blue }
"#;
    let facts = extract(src, "lib/models/color.dart");

    let color = by_name(&facts, "Color").unwrap();
    assert_eq!(color.kind, SymbolKind::Enum);
    assert_eq!(
        color.id.to_scip_string(),
        "codegraph . . . models/color/Color#"
    );

    let red = by_name(&facts, "red").unwrap();
    assert_eq!(red.kind, SymbolKind::Const);
    assert_eq!(
        red.id.to_scip_string(),
        "codegraph . . . models/color/Color#red."
    );
}

#[test]
fn type_alias_is_extracted() {
    let src = r#"
typedef Callback = void Function(String);
"#;
    let facts = extract(src, "lib/types/aliases.dart");
    let alias = by_name(&facts, "Callback").unwrap();
    assert_eq!(alias.kind, SymbolKind::TypeAlias);
}

#[test]
fn top_level_variable_is_extracted_as_static() {
    let src = r#"
String appName = 'MyApp';
"#;
    let facts = extract(src, "lib/config/constants.dart");
    let var_sym = by_name(&facts, "appName").unwrap();
    assert_eq!(var_sym.kind, SymbolKind::Static);
}

// ── References ───────────────────────────────────────────────────────────

#[test]
fn dart_qualified_call_captures_qualifier() {
    let src = r#"
class Client {
  void run() {
    var svc = Service();
    svc.process();
  }
}
"#;
    let facts = extract(src, "lib/client.dart");

    let process = facts
        .references
        .iter()
        .find(|r| r.name == "process")
        .expect("expected Call ref for 'process'");
    assert_eq!(process.role, RefRole::Call);
    assert_eq!(
        process.qualifier.as_deref(),
        Some("svc"),
        "expected qualifier 'svc' on the process call ref",
    );
}

#[test]
fn dart_this_receiver_call_marks_self_receiver() {
    let src = r#"
class C {
  void foo() {}
  void run() { this.foo(); }
}
"#;
    let facts = extract(src, "lib/c.dart");
    let foo_call = facts
        .references
        .iter()
        .find(|r| r.role == RefRole::Call && r.name == "foo")
        .expect("expected a Call reference for 'foo'");
    assert!(
        foo_call.self_receiver,
        "this.foo() should mark self_receiver = true"
    );
    assert_eq!(
        foo_call.qualifier, None,
        "self-call qualifier must stay None"
    );
}

#[test]
fn dart_non_self_receiver_call_does_not_mark_self_receiver() {
    let src = r#"
class C {
  void foo() {}
  void run(C obj) { obj.foo(); }
}
"#;
    let facts = extract(src, "lib/c.dart");
    let foo_calls: Vec<_> = facts
        .references
        .iter()
        .filter(|r| r.role == RefRole::Call && r.name == "foo")
        .collect();
    assert!(
        foo_calls.iter().any(|r| !r.self_receiver),
        "obj.foo() must NOT mark self_receiver, got {foo_calls:?}"
    );
}

#[test]
fn import_show_produces_import_references() {
    let src = r#"
import 'package:a/b.dart' show Foo, Bar;
class C {}
"#;
    let facts = extract(src, "lib/c.dart");

    let import_names: Vec<&str> = facts
        .references
        .iter()
        .filter(|r| r.role == RefRole::Import)
        .map(|r| r.name.as_str())
        .collect();

    assert!(
        import_names.contains(&"Foo"),
        "expected 'Foo' in import refs: {import_names:?}"
    );
    assert!(
        import_names.contains(&"Bar"),
        "expected 'Bar' in import refs: {import_names:?}"
    );

    let foo_ref = facts
        .references
        .iter()
        .find(|r| r.role == RefRole::Import && r.name == "Foo")
        .unwrap();
    assert!(
        foo_ref
            .from_path
            .as_deref()
            .is_some_and(|p| p.contains("package:a/b.dart")),
        "from_path should contain the URI, got {:?}",
        foo_ref.from_path
    );
}

#[test]
fn superclass_and_interface_produce_is_implementation_refs() {
    let src = r#"
class Dog extends Animal implements Pet {
  void bark() {}
}
"#;
    let facts = extract(src, "lib/dog.dart");

    let inherit_names: Vec<&str> = facts
        .references
        .iter()
        .filter(|r| r.role == RefRole::IsImplementation)
        .map(|r| r.name.as_str())
        .collect();

    assert!(
        inherit_names.contains(&"Animal"),
        "expected 'Animal' in IsImplementation refs: {inherit_names:?}"
    );
    assert!(
        inherit_names.contains(&"Pet"),
        "expected 'Pet' in IsImplementation refs: {inherit_names:?}"
    );
}

// ── Read / Write references ──────────────────────────────────────────────

#[test]
fn reassignment_emits_write_for_lhs_and_reads_for_rhs() {
    // `total = total + bonus;` — Write for `total` (LHS), Read for `total`
    // and `bonus` on the RHS.
    let src = r#"
void run() {
  var total = 0;
  var bonus = 5;
  total = total + bonus;
}
"#;
    let facts = extract(src, "lib/run.dart");

    let writes: Vec<&str> = facts
        .references
        .iter()
        .filter(|r| r.role == RefRole::Write)
        .map(|r| r.name.as_str())
        .collect();
    assert!(
        writes.contains(&"total"),
        "expected Write ref for 'total': {writes:?}"
    );

    let reads: Vec<&str> = facts
        .references
        .iter()
        .filter(|r| r.role == RefRole::Read)
        .map(|r| r.name.as_str())
        .collect();
    assert!(
        reads.contains(&"bonus"),
        "expected Read ref for 'bonus': {reads:?}"
    );
    assert!(
        reads.contains(&"total"),
        "expected Read ref for RHS 'total': {reads:?}"
    );
}

#[test]
fn declaration_does_not_emit_write_for_bound_name() {
    // `var result = compute();` — the binding name `result` is NOT a Write.
    let src = r#"
void run() {
  var result = compute();
}
"#;
    let facts = extract(src, "lib/run.dart");

    let write_names: Vec<&str> = facts
        .references
        .iter()
        .filter(|r| r.role == RefRole::Write)
        .map(|r| r.name.as_str())
        .collect();
    assert!(
        !write_names.contains(&"result"),
        "declaration name 'result' must NOT produce a Write ref: {write_names:?}"
    );
}

#[test]
fn call_argument_is_read_but_callee_is_not() {
    // `logger(config);` — Read for `config`, no Read for the callee `logger`.
    let src = r#"
void run() {
  logger(config);
}
"#;
    let facts = extract(src, "lib/run.dart");

    let reads: Vec<&str> = facts
        .references
        .iter()
        .filter(|r| r.role == RefRole::Read)
        .map(|r| r.name.as_str())
        .collect();
    assert!(
        reads.contains(&"config"),
        "expected Read ref for 'config': {reads:?}"
    );
    assert!(
        !reads.contains(&"logger"),
        "callee 'logger' must NOT be emitted as a Read ref: {reads:?}"
    );
}

#[test]
fn member_access_object_is_read_but_property_is_not() {
    // `value = source.field;` — Read for `source`, NOT for `field`.
    let src = r#"
void run() {
  var value = 0;
  value = source.field;
}
"#;
    let facts = extract(src, "lib/run.dart");

    let reads: Vec<&str> = facts
        .references
        .iter()
        .filter(|r| r.role == RefRole::Read)
        .map(|r| r.name.as_str())
        .collect();
    assert!(
        reads.contains(&"source"),
        "expected Read ref for 'source': {reads:?}"
    );
    assert!(
        !reads.contains(&"field"),
        "member property 'field' must NOT be emitted as a Read ref: {reads:?}"
    );
}

// ── Binding type_name (local-typed-call resolution) ────────────────────────

#[test]
fn typed_local_declaration_carries_type_name() {
    let src = r#"
void run() {
  Repo repo = Repo();
}
"#;
    let facts = extract(src, "lib/run.dart");
    let repo = facts
        .bindings
        .iter()
        .find(|b| b.kind == BindingKind::Local && b.name == "repo")
        .expect("expected a Local binding for 'repo'");
    assert_eq!(repo.declared_type.as_deref(), Some("Repo"));
}

#[test]
fn constructor_call_local_has_no_type_name() {
    // `var repo = Repo();` — Dart has no `new` requirement (since Dart 2),
    // so a bare call `Repo()` is syntactically identical to a function
    // call `repo()`; there is no reliable constructor marker to infer
    // from, so this must stay `None` rather than guess.
    let src = r#"
void run() {
  var repo = Repo();
}
"#;
    let facts = extract(src, "lib/run.dart");
    let repo = facts
        .bindings
        .iter()
        .find(|b| b.kind == BindingKind::Local && b.name == "repo")
        .expect("expected a Local binding for 'repo'");
    assert_eq!(repo.declared_type, None);
}

#[test]
fn untyped_local_has_no_type_name() {
    let src = r#"
void run() {
  var result = compute();
}
"#;
    let facts = extract(src, "lib/run.dart");
    let result = facts
        .bindings
        .iter()
        .find(|b| b.kind == BindingKind::Local && b.name == "result")
        .expect("expected a Local binding for 'result'");
    assert_eq!(result.declared_type, None);
}

#[test]
fn dart_typed_param_carries_type_name() {
    let src = "void run(Repo repo) {}";
    let facts = extract(src, "lib/run.dart");
    let repo = facts
        .bindings
        .iter()
        .find(|b| b.kind == BindingKind::Param && b.name == "repo")
        .expect("expected a Param binding for 'repo'");
    assert_eq!(repo.declared_type.as_deref(), Some("Repo"));
}
