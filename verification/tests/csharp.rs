use codegraph::extract::csharp::CSharpExtractor;
use codegraph::extract::Extractor;
use codegraph::graph::types::{BindingKind, EntryPoint, RefRole, SymbolKind, Visibility};

#[test]
fn static_main_is_entry_point() {
    let src = r#"
class Program {
    static void Main(string[] args) {}
}
"#;
    let facts = CSharpExtractor.extract(src, "src/Program.cs").unwrap();
    let main = facts.symbols.iter().find(|s| s.name == "Main").unwrap();
    assert!(
        main.entry_points
            .iter()
            .any(|e| matches!(e, EntryPoint::Main))
    );
}

#[test]
fn instance_main_is_not_entry_point() {
    let src = r#"
class Program {
    void Main() {}
}
"#;
    let facts = CSharpExtractor.extract(src, "src/Program.cs").unwrap();
    let main = facts.symbols.iter().find(|s| s.name == "Main").unwrap();
    assert!(
        !main
            .entry_points
            .iter()
            .any(|e| matches!(e, EntryPoint::Main))
    );
}

// ── Definitions ──────────────────────────────────────────────────────────

#[test]
fn csharp_class_and_method_get_correct_scip_strings() {
    let src = r#"
namespace MyApp.Auth {
    public class SessionManager {
        public bool Validate(string token) { return true; }
        private void Secret() {}
    }
}
"#;
    let facts = CSharpExtractor
        .extract(src, "src/MyApp/Auth/SessionManager.cs")
        .unwrap();

    let by_name = |n: &str| facts.symbols.iter().find(|s| s.name == n).cloned();

    let sm = by_name("SessionManager").unwrap();
    assert_eq!(sm.kind, SymbolKind::Class);
    assert_eq!(sm.visibility, Visibility::Public);
    assert_eq!(
        sm.id.to_scip_string(),
        "codegraph . . . MyApp/Auth/SessionManager#"
    );

    let validate = by_name("Validate").unwrap();
    assert_eq!(validate.kind, SymbolKind::Method);
    assert_eq!(validate.visibility, Visibility::Public);
    assert_eq!(
        validate.id.to_scip_string(),
        "codegraph . . . MyApp/Auth/SessionManager#Validate()."
    );

    // private method must appear with Visibility::Private
    let secret = by_name("Secret").expect("private method 'Secret' must be emitted");
    assert_eq!(secret.visibility, Visibility::Private);
    assert_eq!(
        secret.id.to_scip_string(),
        "codegraph . . . MyApp/Auth/SessionManager#Secret()."
    );

    assert_eq!(facts.lang, "csharp");
}

#[test]
fn namespace_block_yields_correct_descriptors() {
    let src = r#"
namespace A.B {
    public class C {
        public void M() {}
    }
}
"#;
    let facts = CSharpExtractor.extract(src, "src/A/B/C.cs").unwrap();
    let by_name = |n: &str| facts.symbols.iter().find(|s| s.name == n).cloned();

    let c = by_name("C").unwrap();
    assert_eq!(c.id.to_scip_string(), "codegraph . . . A/B/C#");

    let m = by_name("M").unwrap();
    assert_eq!(m.id.to_scip_string(), "codegraph . . . A/B/C#M().");
}

#[test]
fn file_scoped_namespace_works() {
    let src = r#"
namespace A.B;

public class Foo {
    public void Bar() {}
}
"#;
    let facts = CSharpExtractor.extract(src, "src/A/B/Foo.cs").unwrap();
    let by_name = |n: &str| facts.symbols.iter().find(|s| s.name == n).cloned();

    let foo = by_name("Foo").unwrap();
    assert_eq!(foo.id.to_scip_string(), "codegraph . . . A/B/Foo#");

    let bar = by_name("Bar").unwrap();
    assert_eq!(bar.id.to_scip_string(), "codegraph . . . A/B/Foo#Bar().");
}

#[test]
fn enum_and_enum_member_are_extracted() {
    let src = r#"
namespace N {
    public enum Color { Red, Green, Blue }
}
"#;
    let facts = CSharpExtractor.extract(src, "src/N/Color.cs").unwrap();
    let by_name = |n: &str| facts.symbols.iter().find(|s| s.name == n).cloned();

    let color = by_name("Color").unwrap();
    assert_eq!(color.kind, SymbolKind::Enum);
    assert_eq!(color.id.to_scip_string(), "codegraph . . . N/Color#");

    let red = by_name("Red").unwrap();
    assert_eq!(red.kind, SymbolKind::Const);
    assert_eq!(red.id.to_scip_string(), "codegraph . . . N/Color#Red.");
}

#[test]
fn field_is_extracted() {
    let src = r#"
namespace N {
    public class C {
        public int Count;
    }
}
"#;
    let facts = CSharpExtractor.extract(src, "src/N/C.cs").unwrap();
    let count = facts
        .symbols
        .iter()
        .find(|s| s.name == "Count")
        .expect("expected field Count");
    assert_eq!(count.kind, SymbolKind::Static);
    assert_eq!(count.id.to_scip_string(), "codegraph . . . N/C#Count.");
}

// ── References ───────────────────────────────────────────────────────────

#[test]
fn csharp_qualified_call_captures_qualifier() {
    let src = r#"
public class Client {
    public void Run() {
        var obj = new Service();
        obj.Foo();
    }
}
"#;
    let facts = CSharpExtractor.extract(src, "src/Client.cs").unwrap();

    // Foo should appear as a Call reference.
    let foo = facts
        .references
        .iter()
        .find(|r| r.name == "Foo")
        .expect("expected Call ref for 'Foo'");
    assert_eq!(foo.role, RefRole::Call);
    // The receiver must be captured as the call's qualifier (so Tier-B can
    // disambiguate), not emitted as a separate reference.
    assert_eq!(
        foo.qualifier.as_deref(),
        Some("obj"),
        "expected qualifier 'obj' on the Foo call ref",
    );
}

#[test]
fn typed_local_with_constructor_sets_binding_type_name() {
    let src = r#"
class C {
    void M() { Foo obj = new Foo(); }
}
"#;
    let facts = CSharpExtractor.extract(src, "src/C.cs").unwrap();
    let obj_binding = facts
        .bindings
        .iter()
        .find(|b| b.kind == BindingKind::Local && b.name == "obj")
        .expect("expected a Local binding for 'obj'");
    assert_eq!(obj_binding.declared_type.as_deref(), Some("Foo"));
}

#[test]
fn param_type_sets_binding_type_name() {
    let src = r#"
class C {
    void M(Foo p) {}
}
"#;
    let facts = CSharpExtractor.extract(src, "src/C.cs").unwrap();
    let p_binding = facts
        .bindings
        .iter()
        .find(|b| b.kind == BindingKind::Param && b.name == "p")
        .expect("expected a Param binding for 'p'");
    assert_eq!(p_binding.declared_type.as_deref(), Some("Foo"));
}

#[test]
fn var_local_with_non_constructor_initializer_leaves_type_name_none() {
    // `var y = SomethingElse();` is a call, not a directly-written
    // constructor — the declared type isn't syntactically knowable, so
    // fail closed rather than guess.
    let src = r#"
class C {
    void M() { var val = SomethingElse(); }
}
"#;
    let facts = CSharpExtractor.extract(src, "src/C.cs").unwrap();
    let val_binding = facts
        .bindings
        .iter()
        .find(|b| b.kind == BindingKind::Local && b.name == "val")
        .expect("expected a Local binding for 'val'");
    assert_eq!(val_binding.declared_type, None);
}

#[test]
fn csharp_this_receiver_call_marks_self_receiver() {
    let src = r#"
public class C {
    public void Foo() {}
    public void Run() { this.Foo(); }
}
"#;
    let facts = CSharpExtractor.extract(src, "src/C.cs").unwrap();
    let foo_call = facts
        .references
        .iter()
        .find(|r| r.role == RefRole::Call && r.name == "Foo")
        .expect("expected a Call reference for 'Foo'");
    assert!(
        foo_call.self_receiver,
        "this.Foo() should mark self_receiver = true"
    );
    assert_eq!(
        foo_call.qualifier, None,
        "self-call qualifier must stay None"
    );
}

#[test]
fn csharp_non_self_receiver_call_does_not_mark_self_receiver() {
    let src = r#"
public class C {
    public void Foo() {}
    public void Run(C obj) { obj.Foo(); }
}
"#;
    let facts = CSharpExtractor.extract(src, "src/C.cs").unwrap();
    let foo_calls: Vec<_> = facts
        .references
        .iter()
        .filter(|r| r.role == RefRole::Call && r.name == "Foo")
        .collect();
    assert!(
        foo_calls.iter().any(|r| !r.self_receiver),
        "obj.Foo() must NOT mark self_receiver, got {foo_calls:?}"
    );
}

#[test]
fn using_directive_produces_import_reference() {
    let src = r#"
using System.Collections.Generic;
public class C {}
"#;
    let facts = CSharpExtractor.extract(src, "src/C.cs").unwrap();
    let import_names: Vec<&str> = facts
        .references
        .iter()
        .filter(|r| r.role == RefRole::Import)
        .map(|r| r.name.as_str())
        .collect();
    assert!(
        import_names.contains(&"Generic"),
        "expected 'Generic' in import refs: {import_names:?}"
    );
    // Verify from_path is set.
    let r = facts
        .references
        .iter()
        .find(|r| r.role == RefRole::Import && r.name == "Generic")
        .unwrap();
    assert_eq!(
        r.from_path,
        Some("System.Collections".to_owned()),
        "from_path should be 'System.Collections', got {:?}",
        r.from_path
    );
}

#[test]
fn inheritance_produces_is_implementation_references() {
    let src = r#"
public class Foo : Bar, IBaz {}
"#;
    let facts = CSharpExtractor.extract(src, "src/Foo.cs").unwrap();
    let inherit_names: Vec<&str> = facts
        .references
        .iter()
        .filter(|r| r.role == RefRole::IsImplementation)
        .map(|r| r.name.as_str())
        .collect();
    assert!(
        inherit_names.contains(&"Bar"),
        "expected 'Bar' in {inherit_names:?}"
    );
    assert!(
        inherit_names.contains(&"IBaz"),
        "expected 'IBaz' in {inherit_names:?}"
    );
}

#[test]
fn interface_members_emitted_without_public_modifier() {
    let src = r#"
namespace Svc {
    public interface IReader {
        int Read();
        void Close();
    }
}
"#;
    let facts = CSharpExtractor.extract(src, "src/Svc/IReader.cs").unwrap();
    let by_name = |n: &str| facts.symbols.iter().find(|s| s.name == n).cloned();

    let read = by_name("Read").unwrap();
    assert_eq!(read.kind, SymbolKind::Method);
    let close = by_name("Close").unwrap();
    assert_eq!(close.kind, SymbolKind::Method);
}

// ── Read / Write references ──────────────────────────────────────────────

#[test]
fn reassignment_emits_write_for_lhs_and_read_for_rhs() {
    // `total = total + bonus;` — Write for the LHS `total`, Read for the
    // RHS `total` and for `bonus`.
    let src = r#"
public class Calc {
    public int Run(int total, int bonus) {
        total = total + bonus;
        return total;
    }
}
"#;
    let facts = CSharpExtractor.extract(src, "src/Calc.cs").unwrap();

    let writes: Vec<&str> = facts
        .references
        .iter()
        .filter(|r| r.role == RefRole::Write)
        .map(|r| r.name.as_str())
        .collect();
    assert!(
        writes.contains(&"total"),
        "expected Write for 'total', got: {writes:?}",
    );

    let reads: Vec<&str> = facts
        .references
        .iter()
        .filter(|r| r.role == RefRole::Read)
        .map(|r| r.name.as_str())
        .collect();
    assert!(
        reads.contains(&"bonus"),
        "expected Read for 'bonus', got: {reads:?}",
    );
    // The RHS `total` should also be a Read.
    assert!(
        reads.contains(&"total"),
        "expected Read for RHS 'total', got: {reads:?}",
    );
}

#[test]
fn local_declaration_does_not_emit_write() {
    // `var result = Compute();` — `result` is a binding introduction, NOT a Write.
    let src = r#"
public class Worker {
    public int Run() {
        var result = Compute();
        return result;
    }
    private int Compute() { return 42; }
}
"#;
    let facts = CSharpExtractor.extract(src, "src/Worker.cs").unwrap();

    let writes: Vec<&str> = facts
        .references
        .iter()
        .filter(|r| r.role == RefRole::Write)
        .map(|r| r.name.as_str())
        .collect();
    assert!(
        !writes.contains(&"result"),
        "declaration binding must NOT produce a Write ref; got writes: {writes:?}",
    );
}

#[test]
fn call_argument_emits_read_but_not_callee() {
    // `Log(config);` — `config` is a Read; `Log` is a Call, NOT a Read.
    let src = r#"
public class App {
    public void Run(object config) {
        Log(config);
    }
    private void Log(object msg) {}
}
"#;
    let facts = CSharpExtractor.extract(src, "src/App.cs").unwrap();

    let reads: Vec<&str> = facts
        .references
        .iter()
        .filter(|r| r.role == RefRole::Read)
        .map(|r| r.name.as_str())
        .collect();
    assert!(
        reads.contains(&"config"),
        "expected Read for 'config', got: {reads:?}",
    );
    assert!(
        !reads.contains(&"Log"),
        "callee 'Log' must NOT appear as a Read ref; reads: {reads:?}",
    );
}

#[test]
fn member_access_emits_read_for_base_not_leaf() {
    // `value = source.Field;` — Read for `source` (base), NOT for `Field` (leaf).
    let src = r#"
public class Copier {
    public int Run(DataObj source) {
        int value = source.Field;
        return value;
    }
}
public class DataObj { public int Field; }
"#;
    let facts = CSharpExtractor.extract(src, "src/Copier.cs").unwrap();

    let reads: Vec<&str> = facts
        .references
        .iter()
        .filter(|r| r.role == RefRole::Read)
        .map(|r| r.name.as_str())
        .collect();
    assert!(
        reads.contains(&"source"),
        "expected Read for 'source', got: {reads:?}",
    );
    assert!(
        !reads.contains(&"Field"),
        "member-access leaf 'Field' must NOT be a Read ref; reads: {reads:?}",
    );
}

#[test]
fn type_name_in_typed_local_is_not_a_read() {
    // `Helper result = source;` — `Helper` is a type annotation (TypeRef),
    // NOT a value read. `source` IS a value read.
    let src = r#"
class C {
    void M(Helper source) {
        Helper result = source;
    }
}
"#;
    let facts = CSharpExtractor.extract(src, "src/C.cs").unwrap();

    let reads: Vec<&str> = facts
        .references
        .iter()
        .filter(|r| r.role == RefRole::Read)
        .map(|r| r.name.as_str())
        .collect();
    assert!(
        !reads.contains(&"Helper"),
        "type name 'Helper' must NOT appear as a Read ref; reads: {reads:?}",
    );
    assert!(
        reads.contains(&"source"),
        "initializer value 'source' must appear as a Read ref; reads: {reads:?}",
    );
}

// ── Visibility tagging ────────────────────────────────────────────────────

#[test]
fn public_visibility_tagged_correctly() {
    let src = r#"
namespace N {
    public class Svc {
        public void Open() {}
    }
}
"#;
    let facts = CSharpExtractor.extract(src, "src/N/Svc.cs").unwrap();
    let by_name = |n: &str| facts.symbols.iter().find(|s| s.name == n).cloned();

    assert_eq!(by_name("Svc").unwrap().visibility, Visibility::Public);
    assert_eq!(by_name("Open").unwrap().visibility, Visibility::Public);
}

#[test]
fn private_def_emitted_with_private_visibility() {
    let src = r#"
namespace N {
    public class Worker {
        private void Helper() {}
        private int count;
    }
}
"#;
    let facts = CSharpExtractor.extract(src, "src/N/Worker.cs").unwrap();
    let by_name = |n: &str| facts.symbols.iter().find(|s| s.name == n).cloned();

    let helper = by_name("Helper").expect("private method must be emitted");
    assert_eq!(helper.visibility, Visibility::Private);

    let count = by_name("count").expect("private field must be emitted");
    assert_eq!(count.visibility, Visibility::Private);
}

#[test]
fn protected_def_emitted_with_protected_visibility() {
    let src = r#"
namespace N {
    public class Base {
        protected void OnInit() {}
    }
}
"#;
    let facts = CSharpExtractor.extract(src, "src/N/Base.cs").unwrap();
    let on_init = facts
        .symbols
        .iter()
        .find(|s| s.name == "OnInit")
        .expect("protected method must be emitted");
    assert_eq!(on_init.visibility, Visibility::Protected);
}

#[test]
fn internal_def_emitted_with_internal_visibility() {
    let src = r#"
namespace N {
    internal class Cache {
        internal void Flush() {}
    }
}
"#;
    let facts = CSharpExtractor.extract(src, "src/N/Cache.cs").unwrap();
    let by_name = |n: &str| facts.symbols.iter().find(|s| s.name == n).cloned();

    let cache = by_name("Cache").expect("internal class must be emitted");
    assert_eq!(cache.visibility, Visibility::Internal);

    let flush = by_name("Flush").expect("internal method must be emitted");
    assert_eq!(flush.visibility, Visibility::Internal);
}

#[test]
fn no_modifier_maps_to_internal() {
    // A class with no access modifier at namespace level defaults to internal in C#.
    let src = r#"
namespace N {
    class Hidden {
        void DoWork() {}
    }
}
"#;
    let facts = CSharpExtractor.extract(src, "src/N/Hidden.cs").unwrap();
    let by_name = |n: &str| facts.symbols.iter().find(|s| s.name == n).cloned();

    let hidden = by_name("Hidden").expect("no-modifier class must be emitted");
    assert_eq!(hidden.visibility, Visibility::Internal);

    let do_work = by_name("DoWork").expect("no-modifier method must be emitted");
    assert_eq!(do_work.visibility, Visibility::Internal);
}

#[test]
fn private_protected_maps_to_private() {
    let src = r#"
namespace N {
    public class Base {
        private protected void Hook() {}
    }
}
"#;
    let facts = CSharpExtractor.extract(src, "src/N/Base.cs").unwrap();
    let hook = facts
        .symbols
        .iter()
        .find(|s| s.name == "Hook")
        .expect("private protected method must be emitted");
    // private is checked first → Private
    assert_eq!(hook.visibility, Visibility::Private);
}

#[test]
fn protected_internal_maps_to_protected() {
    let src = r#"
namespace N {
    public class Base {
        protected internal void Extend() {}
    }
}
"#;
    let facts = CSharpExtractor.extract(src, "src/N/Base.cs").unwrap();
    let extend = facts
        .symbols
        .iter()
        .find(|s| s.name == "Extend")
        .expect("protected internal method must be emitted");
    // private absent, protected present → Protected
    assert_eq!(extend.visibility, Visibility::Protected);
}

#[test]
fn interface_members_tagged_public_implicitly() {
    let src = r#"
namespace N {
    public interface IFoo {
        void Bar();
        int Baz { get; }
    }
}
"#;
    let facts = CSharpExtractor.extract(src, "src/N/IFoo.cs").unwrap();
    let by_name = |n: &str| facts.symbols.iter().find(|s| s.name == n).cloned();

    assert_eq!(by_name("Bar").unwrap().visibility, Visibility::Public);
    assert_eq!(by_name("Baz").unwrap().visibility, Visibility::Public);
}

#[test]
fn nested_private_type_emitted_with_private_visibility() {
    let src = r#"
namespace N {
    public class Outer {
        private class Inner {}
    }
}
"#;
    let facts = CSharpExtractor.extract(src, "src/N/Outer.cs").unwrap();
    let inner = facts
        .symbols
        .iter()
        .find(|s| s.name == "Inner")
        .expect("nested private class must be emitted");
    assert_eq!(inner.visibility, Visibility::Private);
}
