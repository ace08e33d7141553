use codegraph::extract::c::CExtractor;
use codegraph::extract::cpp::CppExtractor;
use codegraph::extract::csharp::CSharpExtractor;
use codegraph::extract::dart::DartExtractor;
use codegraph::extract::go::GoExtractor;
use codegraph::extract::hcl::HclExtractor;
use codegraph::extract::java::JavaExtractor;
use codegraph::extract::kotlin::KotlinExtractor;
use codegraph::extract::lua::LuaExtractor;
use codegraph::extract::Extractor;
use codegraph::graph::types::{
    BindingKind, ByteSpan, FileFacts, RefRole, ScopeKind, SymbolKind, TypeRefContext, Visibility,
};

fn names(facts: &FileFacts, role: RefRole) -> Vec<&str> {
    facts.references.iter().filter(|r| r.role == role).map(|r| r.name.as_str()).collect()
}

fn bound(facts: &FileFacts, kind: BindingKind) -> Vec<&str> {
    facts.bindings.iter().filter(|b| b.kind == kind).map(|b| b.name.as_str()).collect()
}

fn declared_type(facts: &FileFacts, name: &str) -> Option<String> {
    facts.bindings.iter().find(|b| b.name == name).unwrap().declared_type.clone()
}

#[test]
fn c_names_that_are_declared_are_not_read() {
    let src = "int first, second = 2, *third;\nint f(int (*hook)(int)) { return hook(second); }";
    let facts = CExtractor.extract(src, "a.c").unwrap();
    assert_eq!(names(&facts, RefRole::Read), vec!["second"]);
    assert_eq!(names(&facts, RefRole::Call), vec!["hook"]);
}

#[test]
fn c_declarations_define_each_of_their_names() {
    let facts = CExtractor.extract("static int one, *two(void);", "src/a.c").unwrap();
    let defs: Vec<_> = facts.symbols[..2]
        .iter()
        .map(|s| (s.name.as_str(), s.kind, s.visibility))
        .collect();
    assert_eq!(
        defs,
        vec![
            ("one", SymbolKind::Static, Visibility::Private),
            ("two", SymbolKind::Function, Visibility::Private),
        ]
    );
    assert_eq!(facts.symbols[1].id.to_scip_string(), "codegraph . . . a/two().");
}

#[test]
fn c_signatures_stop_at_the_body() {
    let facts = CExtractor.extract("int  add(int a,\n  int b)\n{ return a; }", "a.c").unwrap();
    assert_eq!(facts.symbols[0].signature, "int add(int a, int b)");
    assert_eq!(facts.symbols[0].span, ByteSpan { start: 0, end: 39 });
}

#[test]
fn c_bodies_open_one_scope_and_blocks_another() {
    let facts = CExtractor.extract("void f(void) { int a; { int b; } }", "a.c").unwrap();
    let scopes: Vec<_> = facts.scopes.iter().map(|s| (s.kind, s.parent)).collect();
    assert_eq!(
        scopes,
        vec![
            (ScopeKind::Module, None),
            (ScopeKind::Function, Some(0)),
            (ScopeKind::Block, Some(1)),
        ]
    );
    let locals: Vec<_> = facts
        .bindings
        .iter()
        .filter(|b| b.kind == BindingKind::Local)
        .map(|b| (b.name.as_str(), b.scope))
        .collect();
    assert_eq!(locals, vec![("a", 1), ("b", 2)]);
}

#[test]
fn c_types_are_referred_to_where_they_stand() {
    let src = "struct Node { Item item; };\nConfig make(struct Node *node, int n) { return 0; }";
    let facts = CExtractor.extract(src, "a.c").unwrap();
    let refs: Vec<_> = facts
        .references
        .iter()
        .filter(|r| r.role == RefRole::TypeRef)
        .map(|r| (r.name.as_str(), r.type_ref_ctx))
        .collect();
    assert_eq!(
        refs,
        vec![
            ("Item", Some(TypeRefContext::Field)),
            ("Config", Some(TypeRefContext::ReturnType)),
            ("Node", Some(TypeRefContext::ParameterType)),
        ]
    );
}

#[test]
fn cpp_names_that_are_declared_are_not_read() {
    let src = "void f(int &first, int *second, Args... third) { int fourth = first; }";
    let facts = CppExtractor.extract(src, "a.cpp").unwrap();
    assert_eq!(names(&facts, RefRole::Read), vec!["first"]);
}

#[test]
fn cpp_receivers_qualify_calls_unless_they_are_this() {
    let src = "struct A { void f() { this->stop(); repo->save(); repo.load(); a.b.deep(); } };";
    let facts = CppExtractor.extract(src, "a.cpp").unwrap();
    let calls: Vec<_> = facts
        .references
        .iter()
        .filter(|r| r.role == RefRole::Call)
        .map(|r| (r.name.as_str(), r.qualifier.as_deref(), r.self_receiver))
        .collect();
    assert_eq!(
        calls,
        vec![
            ("stop", None, true),
            ("save", Some("repo"), false),
            ("load", Some("repo"), false),
            ("deep", None, false),
        ]
    );
}

#[test]
fn cpp_namespaces_hold_no_locals() {
    let src = "namespace a { int global; void f() { int local; } }";
    let facts = CppExtractor.extract(src, "a.cpp").unwrap();
    assert_eq!(bound(&facts, BindingKind::Local), vec!["local"]);
}

#[test]
fn cpp_definitions_stand_under_their_namespaces() {
    let facts = CppExtractor
        .extract("namespace a::b { struct S { void f(); }; }", "src/x.cpp")
        .unwrap();
    let ids: Vec<String> = facts.symbols.iter().map(|s| s.id.to_scip_string()).collect();
    assert!(ids.contains(&"codegraph . . . x/a/b/S#".to_string()), "{ids:?}");
    assert!(ids.contains(&"codegraph . . . x/a/b/S#f().".to_string()), "{ids:?}");
}

#[test]
fn csharp_aliases_and_static_usings_are_no_imports() {
    let src = "using System.Text;\nusing Short = System.Long.Name;\nusing static System.Math;\nusing Plain;";
    let facts = CSharpExtractor.extract(src, "A.cs").unwrap();
    let imports: Vec<_> = facts
        .references
        .iter()
        .filter(|r| r.role == RefRole::Import)
        .map(|r| (r.name.as_str(), r.from_path.as_deref()))
        .collect();
    assert_eq!(imports, vec![("Text", Some("System")), ("Plain", None)]);
}

#[test]
fn csharp_generic_names_are_not_read() {
    let src = "class A { void F() { List<Item> all = Make<Item>(value); } }";
    let facts = CSharpExtractor.extract(src, "A.cs").unwrap();
    let reads = names(&facts, RefRole::Read);
    assert!(!reads.contains(&"List"), "{reads:?}");
    assert!(!reads.contains(&"Make"), "{reads:?}");
    assert!(reads.contains(&"value"), "{reads:?}");
}

#[test]
fn csharp_private_wins_over_protected() {
    let src = "class A { private protected int a; protected internal int b; int c; public int d; }";
    let facts = CSharpExtractor.extract(src, "A.cs").unwrap();
    let visibility = |name: &str| facts.symbols.iter().find(|s| s.name == name).unwrap().visibility;
    assert_eq!(visibility("a"), Visibility::Private);
    assert_eq!(visibility("b"), Visibility::Protected);
    assert_eq!(visibility("c"), Visibility::Internal);
    assert_eq!(visibility("d"), Visibility::Public);
}

#[test]
fn dart_names_that_are_declared_are_not_read() {
    let src = "enum Color { red, green }\nint add(int left, int right) { var sum = left; sum = right; return sum; }";
    let facts = DartExtractor.extract(src, "lib/a.dart").unwrap();
    assert_eq!(names(&facts, RefRole::Read), vec!["left", "right", "sum"]);
    assert_eq!(names(&facts, RefRole::Write), vec!["sum"]);
}

#[test]
fn dart_members_are_not_written() {
    let src = "void f(Repo repo) { repo.size = 1; }";
    let facts = DartExtractor.extract(src, "lib/a.dart").unwrap();
    assert!(names(&facts, RefRole::Write).is_empty());
    assert!(names(&facts, RefRole::Read).contains(&"repo"));
}

#[test]
fn dart_imports_are_what_they_show_and_their_prefix() {
    let src = "import 'a.dart';\nimport 'b.dart' as bee;\nimport \"c.dart\" show One, Two;\nimport 'd.dart' hide Three;\n";
    let facts = DartExtractor.extract(src, "lib/a.dart").unwrap();
    let imports: Vec<_> = facts
        .references
        .iter()
        .filter(|r| r.role == RefRole::Import)
        .map(|r| (r.name.as_str(), r.from_path.as_deref()))
        .collect();
    assert_eq!(
        imports,
        vec![("bee", Some("b.dart")), ("One", Some("c.dart")), ("Two", Some("c.dart"))]
    );
}

#[test]
fn go_types_are_known_by_position() {
    let src = "package p\nfunc f() { a, b := Foo{}, other(); var c, d = 1, Bar{}; var e *pkg.Baz }";
    let facts = GoExtractor.extract(src, "p/a.go").unwrap();
    assert_eq!(declared_type(&facts, "a").as_deref(), Some("Foo"));
    assert_eq!(declared_type(&facts, "b"), None);
    assert_eq!(declared_type(&facts, "c"), None);
    assert_eq!(declared_type(&facts, "d").as_deref(), Some("Bar"));
    assert_eq!(declared_type(&facts, "e").as_deref(), Some("Baz"));
}

#[test]
fn go_groups_define_each_of_their_names() {
    let src = "package p\nvar (\n\tOne = 1\n\ttwo, Three int\n)\nconst (\n\tFour = 4\n)\nvar five = 5\n";
    let facts = GoExtractor.extract(src, "p/a.go").unwrap();
    let defs: Vec<_> = facts.symbols[..5].iter().map(|s| (s.name.as_str(), s.kind)).collect();
    assert_eq!(
        defs,
        vec![
            ("One", SymbolKind::Static),
            ("two", SymbolKind::Static),
            ("Three", SymbolKind::Static),
            ("Four", SymbolKind::Const),
            ("five", SymbolKind::Static),
        ]
    );
    assert_eq!(bound(&facts, BindingKind::Definition), vec!["One", "two", "Three", "Four", "five"]);
    assert!(bound(&facts, BindingKind::Local).is_empty());
}

#[test]
fn go_blanks_are_not_bound() {
    let src = "package p\nfunc f(_ int, item int) { for _, value := range list() { _ = value } }";
    let facts = GoExtractor.extract(src, "p/a.go").unwrap();
    assert_eq!(bound(&facts, BindingKind::Param), vec!["item"]);
    assert_eq!(bound(&facts, BindingKind::Local), vec!["value"]);
}

#[test]
fn go_exports_names_that_start_in_upper_case() {
    let facts = GoExtractor.extract("package p\nfunc Élan() {}\nfunc élan() {}\n", "p/a.go").unwrap();
    assert_eq!(facts.symbols[0].visibility, Visibility::Public);
    assert_eq!(facts.symbols[1].visibility, Visibility::Internal);
}

#[test]
fn hcl_blocks_with_too_few_labels_define_nothing() {
    let src = "resource \"only\" {}\ndata {}\nmodule {}\nvariable \"x\" {}\nresource \"t\" \"n\" { lifecycle {} }";
    let facts = HclExtractor.extract(src, "main.tf").unwrap();
    let defs: Vec<_> = facts.symbols.iter().map(|s| (s.name.as_str(), s.kind)).collect();
    assert_eq!(defs, vec![("n", SymbolKind::Resource), ("main", SymbolKind::Module)]);
    assert_eq!(facts.symbols[0].signature, "resource \"t\" \"n\"");
}

#[test]
fn java_types_are_written_or_constructed() {
    let src = "class A { void f() { var a = new Foo(); Bar b = make(); int c = new Integer(5); \
               Baz[] d = null; var e = make(); List<Item> g = null; } }";
    let facts = JavaExtractor.extract(src, "A.java").unwrap();
    assert_eq!(declared_type(&facts, "a").as_deref(), Some("Foo"));
    assert_eq!(declared_type(&facts, "b").as_deref(), Some("Bar"));
    assert_eq!(declared_type(&facts, "c"), None);
    assert_eq!(declared_type(&facts, "d"), None);
    assert_eq!(declared_type(&facts, "e"), None);
}

#[test]
fn java_members_of_interfaces_are_public() {
    let src = "interface I { void f(); }\nclass C { void f() {} }";
    let facts = JavaExtractor.extract(src, "I.java").unwrap();
    let methods: Vec<_> = facts
        .symbols
        .iter()
        .filter(|s| s.kind == SymbolKind::Method)
        .map(|s| s.visibility)
        .collect();
    assert_eq!(methods, vec![Visibility::Public, Visibility::Internal]);
}

#[test]
fn java_paths_stand_in_for_packages() {
    let facts = JavaExtractor.extract("class A {}", "src/com/example/A.java").unwrap();
    assert_eq!(facts.symbols[0].id.to_scip_string(), "codegraph . . . com/example/A/A#");
    let facts = JavaExtractor.extract("package one.two;\nclass A {}", "src/A.java").unwrap();
    assert_eq!(facts.symbols[0].id.to_scip_string(), "codegraph . . . one/two/A#");
}

#[test]
fn kotlin_types_are_written_or_constructed() {
    let src = "fun f() { val a = Foo()\n val b: Bar = make()\n val c: Baz? = Foo()\n val d = x.make()\n }";
    let facts = KotlinExtractor.extract(src, "a.kt").unwrap();
    assert_eq!(declared_type(&facts, "a").as_deref(), Some("Foo"));
    assert_eq!(declared_type(&facts, "b").as_deref(), Some("Bar"));
    assert_eq!(declared_type(&facts, "c"), None);
    assert_eq!(declared_type(&facts, "d"), None);
}

#[test]
fn kotlin_companions_have_a_name() {
    let src = "class A { companion object { val limit = 1 } }";
    let facts = KotlinExtractor.extract(src, "a.kt").unwrap();
    let ids: Vec<String> = facts.symbols.iter().map(|s| s.id.to_scip_string()).collect();
    assert!(ids.contains(&"codegraph . . . a/A#Companion#".to_string()), "{ids:?}");
    assert!(ids.contains(&"codegraph . . . a/A#Companion#limit.".to_string()), "{ids:?}");
}

#[test]
fn kotlin_wildcard_imports_are_dropped() {
    let src = "import a.b.*\nimport a.b.Item\nimport Solo\n";
    let facts = KotlinExtractor.extract(src, "a.kt").unwrap();
    let imports: Vec<_> = facts
        .references
        .iter()
        .filter(|r| r.role == RefRole::Import)
        .map(|r| (r.name.as_str(), r.from_path.as_deref()))
        .collect();
    assert_eq!(imports, vec![("Item", Some("a.b")), ("Solo", None)]);
}

#[test]
fn lua_locals_are_not_written() {
    let src = "local total = 1\ntotal = total + extra\nobj.field = total\n";
    let facts = LuaExtractor.extract(src, "src/a.lua").unwrap();
    assert_eq!(names(&facts, RefRole::Write), vec!["total"]);
    assert_eq!(names(&facts, RefRole::Read), vec!["total", "extra", "obj", "total"]);
}

#[test]
fn lua_methods_stand_under_their_tables() {
    let src = "local M = {}\nfunction M.get() end\nfunction M:set() end\nfunction free() end\n";
    let facts = LuaExtractor.extract(src, "lua/http/client.lua").unwrap();
    let ids: Vec<String> = facts.symbols.iter().map(|s| s.id.to_scip_string()).collect();
    assert!(ids.contains(&"codegraph . . . http/client/M#get().".to_string()), "{ids:?}");
    assert!(ids.contains(&"codegraph . . . http/client/M#set().".to_string()), "{ids:?}");
    assert!(ids.contains(&"codegraph . . . http/client/free().".to_string()), "{ids:?}");
}

fn defined(facts: &FileFacts) -> Vec<(&str, SymbolKind, Visibility)> {
    let n = facts.symbols.len() - 1;
    facts.symbols[..n].iter().map(|s| (s.name.as_str(), s.kind, s.visibility)).collect()
}

fn ids(facts: &FileFacts) -> Vec<String> {
    facts.symbols.iter().map(|s| s.id.to_scip_string()).collect()
}

#[test]
fn hcl_traversals_inside_a_traversal_are_reported() {
    let src = "resource \"aws_instance\" \"web\" { x = aws_subnet.main[var.idx].id }";
    let facts = HclExtractor.extract(src, "main.tf").unwrap();
    let refs: Vec<_> =
        facts.references.iter().map(|r| (r.name.as_str(), r.qualifier.as_deref())).collect();
    assert_eq!(refs, vec![("main", Some("aws_subnet")), ("idx", Some("var"))]);
}

#[test]
fn cpp_members_are_reported_for_each_declarator() {
    let facts = CppExtractor.extract("struct P { int x, y; };", "p.cpp").unwrap();
    assert_eq!(
        defined(&facts),
        vec![
            ("P", SymbolKind::Struct, Visibility::Public),
            ("x", SymbolKind::Static, Visibility::Public),
            ("y", SymbolKind::Static, Visibility::Public),
        ]
    );
    assert_eq!(facts.symbols[2].id.to_scip_string(), "codegraph . . . p/P#y.");
}

#[test]
fn cpp_members_of_every_sort_are_reported() {
    let src = "class A { A(); ~A(); typedef int Num, *Ptr; using Str = char; \
               template<class T> T get(); \
               public: struct Inner { int deep; } inner; enum Color { RED }; };";
    let facts = CppExtractor.extract(src, "a.cpp").unwrap();
    assert_eq!(
        defined(&facts),
        vec![
            ("A", SymbolKind::Class, Visibility::Public),
            ("A", SymbolKind::Method, Visibility::Private),
            ("~A", SymbolKind::Method, Visibility::Private),
            ("Num", SymbolKind::TypeAlias, Visibility::Private),
            ("Ptr", SymbolKind::TypeAlias, Visibility::Private),
            ("Str", SymbolKind::TypeAlias, Visibility::Private),
            ("get", SymbolKind::Method, Visibility::Private),
            ("Inner", SymbolKind::Struct, Visibility::Public),
            ("deep", SymbolKind::Static, Visibility::Public),
            ("inner", SymbolKind::Static, Visibility::Public),
            ("Color", SymbolKind::Enum, Visibility::Public),
        ]
    );
}

#[test]
fn cpp_methods_are_no_start_of_the_program() {
    let src = "struct Foo { int main(); };\nint Foo::main() { return 0; }\nint main() { return 1; }";
    let facts = CppExtractor.extract(src, "s.cpp").unwrap();
    let mains: Vec<_> = facts
        .symbols
        .iter()
        .filter(|s| s.name == "main")
        .map(|s| (s.kind, s.entry_points.len()))
        .collect();
    assert_eq!(
        mains,
        vec![(SymbolKind::Method, 0), (SymbolKind::Function, 0), (SymbolKind::Function, 1)]
    );
}

#[test]
fn cpp_loop_variables_are_not_read() {
    let src = "void f() { for (auto item : items) { use(item); } }";
    let facts = CppExtractor.extract(src, "a.cpp").unwrap();
    assert_eq!(names(&facts, RefRole::Read), vec!["items", "item"]);
}

#[test]
fn typedefs_introduce_each_of_their_names() {
    let facts = CExtractor.extract("typedef int A, *B;", "a.c").unwrap();
    assert_eq!(
        defined(&facts),
        vec![
            ("A", SymbolKind::TypeAlias, Visibility::Public),
            ("B", SymbolKind::TypeAlias, Visibility::Public),
        ]
    );
    let facts = CppExtractor.extract("typedef int A, *B;", "a.cpp").unwrap();
    assert_eq!(facts.symbols.len(), 3);
    assert_eq!(facts.symbols[1].name, "B");
}

#[test]
fn c_types_in_types_are_referred_to() {
    let src = "struct A { struct B { Config conf; } b; };\nvoid f(int (*cb)(Event e)) {}";
    let facts = CExtractor.extract(src, "a.c").unwrap();
    let refs: Vec<_> = facts
        .references
        .iter()
        .filter(|r| r.role == RefRole::TypeRef)
        .map(|r| (r.name.as_str(), r.type_ref_ctx))
        .collect();
    assert_eq!(
        refs,
        vec![
            ("B", Some(TypeRefContext::Field)),
            ("Config", Some(TypeRefContext::Field)),
            ("Event", Some(TypeRefContext::ParameterType)),
        ]
    );
}

#[test]
fn c_declarations_in_expressions_are_local() {
    let src = "int f(void) { int outer = ({ int inner = 1; inner; }); return outer; }";
    let facts = CExtractor.extract(src, "a.c").unwrap();
    assert_eq!(bound(&facts, BindingKind::Local), vec!["outer", "inner"]);
}

#[test]
fn csharp_declared_names_are_not_read() {
    let src = "namespace Shop { class A { void Run() { foreach (var item in items) { } \
               int Local(int arg) { return arg; } } } }";
    let facts = CSharpExtractor.extract(src, "A.cs").unwrap();
    assert_eq!(names(&facts, RefRole::Read), vec!["items", "arg"]);
}

#[test]
fn dart_variables_and_fields_of_every_sort_are_reported() {
    let src = "const one = 1;\nfinal int two = 2, three = 3;\nvar four = 4;\n\
               abstract class A { static const five = 5; final int six = 6; abstract int seven; }\n";
    let facts = DartExtractor.extract(src, "lib/a.dart").unwrap();
    let vars: Vec<_> = facts
        .symbols
        .iter()
        .filter(|s| s.kind == SymbolKind::Static)
        .map(|s| s.name.as_str())
        .collect();
    assert_eq!(vars, vec!["one", "two", "three", "four", "five", "six", "seven"]);
    assert!(names(&facts, RefRole::Read).is_empty());
}

#[test]
fn dart_methods_and_constructors_of_every_sort_are_reported() {
    let src = "abstract class Shape {\n  Shape(this.side) { init(); }\n  const Shape.small();\n  \
               factory Shape.large() => make();\n  int side;\n  int get area => side;\n  \
               set width(int value) { side = value; }\n  bool operator <(Shape other) => true;\n  \
               void draw();\n  Shape copy() { return this; }\n}\n";
    let facts = DartExtractor.extract(src, "lib/a.dart").unwrap();
    let methods: Vec<_> = facts
        .symbols
        .iter()
        .filter(|s| s.kind == SymbolKind::Method)
        .map(|s| s.name.as_str())
        .collect();
    assert_eq!(
        methods,
        vec!["Shape", "Shape", "Shape", "area", "width", "<", "draw", "copy"]
    );
}

#[test]
fn dart_enums_have_members_behind_their_constants() {
    let src = "enum Color { red, green; int level() => 1; }\nclass Both = One with Two;\n";
    let facts = DartExtractor.extract(src, "lib/a.dart").unwrap();
    let defs: Vec<_> = defined(&facts).into_iter().map(|(n, k, _)| (n, k)).collect();
    assert_eq!(
        defs,
        vec![
            ("Color", SymbolKind::Enum),
            ("red", SymbolKind::Const),
            ("green", SymbolKind::Const),
            ("level", SymbolKind::Method),
            ("Both", SymbolKind::Class),
        ]
    );
}

#[test]
fn dart_functions_are_reported_and_getters_at_the_top_are_not() {
    let src = "external int native(int arg);\nint get level => 1;\nset level(int value) {}\nvoid run() {}\n";
    let facts = DartExtractor.extract(src, "lib/a.dart").unwrap();
    let defs: Vec<_> = defined(&facts).into_iter().map(|(n, k, _)| (n, k)).collect();
    assert_eq!(defs, vec![("native", SymbolKind::Function), ("run", SymbolKind::Function)]);
}

#[test]
fn dart_properties_that_are_assigned_to_are_not_read() {
    let src = "class A { int total; void f(Repo repo) { this.total = 5; repo.count = 6; } }";
    let facts = DartExtractor.extract(src, "lib/a.dart").unwrap();
    assert_eq!(names(&facts, RefRole::Read), vec!["repo"]);
    assert!(names(&facts, RefRole::Write).is_empty());
}

#[test]
fn dart_return_types_are_referred_to() {
    let src = "abstract class A { Item get first; Other make(Input input); Third run() { return x; } }";
    let facts = DartExtractor.extract(src, "lib/a.dart").unwrap();
    let refs: Vec<_> = facts
        .references
        .iter()
        .filter(|r| r.role == RefRole::TypeRef)
        .map(|r| (r.name.as_str(), r.type_ref_ctx))
        .collect();
    assert_eq!(
        refs,
        vec![
            ("Item", Some(TypeRefContext::ReturnType)),
            ("Other", Some(TypeRefContext::ReturnType)),
            ("Input", Some(TypeRefContext::ParameterType)),
            ("Third", Some(TypeRefContext::ReturnType)),
        ]
    );
}

#[test]
fn java_members_of_every_sort_are_reported() {
    let src = "interface I { int LIMIT = 1; }\n@interface Mark { String value(); int MAX = 2; }\n\
               record Pair(int left) { Pair { } }\nenum E { ONE; int level() { return 1; } }";
    let facts = JavaExtractor.extract(src, "src/I.java").unwrap();
    assert_eq!(
        defined(&facts),
        vec![
            ("I", SymbolKind::Interface, Visibility::Internal),
            ("LIMIT", SymbolKind::Static, Visibility::Public),
            ("Mark", SymbolKind::Interface, Visibility::Internal),
            ("value", SymbolKind::Method, Visibility::Public),
            ("MAX", SymbolKind::Static, Visibility::Public),
            ("Pair", SymbolKind::Class, Visibility::Internal),
            ("Pair", SymbolKind::Method, Visibility::Internal),
            ("E", SymbolKind::Enum, Visibility::Internal),
            ("level", SymbolKind::Method, Visibility::Internal),
        ]
    );
}

#[test]
fn java_default_package_is_not_mangled() {
    let facts = JavaExtractor.extract("class C { native void run(); }", "src/C.java").unwrap();
    assert_eq!(names(&facts, RefRole::Call), vec!["Java_C_run"]);
    assert_eq!(facts.symbols[0].id.to_scip_string(), "codegraph . . . C/C#");
    let facts = JavaExtractor
        .extract("package a.b;\nenum E { ONE; native void run(); }", "src/a/b/E.java")
        .unwrap();
    assert_eq!(names(&facts, RefRole::Call), vec!["Java_a_b_E_run"]);
}

#[test]
fn java_parameters_are_not_read() {
    let src = "class A { void f() { for (Item item : items) { use(x -> y); } \
               call((one, two) -> one); try { } catch (Exception error) { } } }";
    let facts = JavaExtractor.extract(src, "A.java").unwrap();
    assert_eq!(names(&facts, RefRole::Read), vec!["items", "one"]);
}

#[test]
fn kotlin_types_in_default_values_are_referred_to() {
    let src = "class A(val run: Runner = make { item: Item -> item })";
    let facts = KotlinExtractor.extract(src, "a.kt").unwrap();
    assert_eq!(names(&facts, RefRole::TypeRef), vec!["Runner", "Item"]);
}

#[test]
fn lua_locals_without_a_value_are_defined() {
    let facts = LuaExtractor.extract("local first, second\nlocal third = 3\n", "src/a.lua").unwrap();
    let defs: Vec<_> = defined(&facts).into_iter().map(|(n, k, _)| (n, k)).collect();
    assert_eq!(
        defs,
        vec![
            ("first", SymbolKind::Static),
            ("second", SymbolKind::Static),
            ("third", SymbolKind::Static),
        ]
    );
    assert!(ids(&facts).contains(&"codegraph . . . a/first.".to_string()));
}

#[test]
fn c_sections_hold_declarations_of_the_file() {
    let src = "#ifndef A_H\n#define A_H\nint first(void);\n#if X\nint second;\n#else\nint third;\n#endif\n\
               extern \"C\" { int fourth(void); }\n#endif\n";
    for facts in [
        CExtractor.extract(src, "a.h").unwrap(),
        CppExtractor.extract(src, "a.hpp").unwrap(),
    ] {
        let defs: Vec<_> = defined(&facts).into_iter().map(|(n, k, _)| (n, k)).collect();
        assert_eq!(
            defs,
            vec![
                ("A_H", SymbolKind::Const),
                ("first", SymbolKind::Function),
                ("second", SymbolKind::Static),
                ("third", SymbolKind::Static),
                ("fourth", SymbolKind::Function),
            ]
        );
    }
}

#[test]
fn cpp_sections_hold_members() {
    let src = "struct A {\n#ifdef X\n  int one;\n#else\n  int two;\n#endif\n  int three;\n};";
    let facts = CppExtractor.extract(src, "a.cpp").unwrap();
    let defs: Vec<_> = defined(&facts).into_iter().map(|(n, _, _)| n).collect();
    assert_eq!(defs, vec!["A", "one", "two", "three"]);
}

#[test]
fn cpp_lambdas_open_scopes_wherever_they_stand() {
    let src = "struct A { A() : run([](int arg) { return arg; }) { int local; } };";
    let facts = CppExtractor.extract(src, "a.cpp").unwrap();
    let scopes: Vec<_> = facts.scopes.iter().map(|s| (s.kind, s.parent)).collect();
    assert_eq!(
        scopes,
        vec![
            (ScopeKind::Module, None),
            (ScopeKind::Type, Some(0)),
            (ScopeKind::Function, Some(1)),
            (ScopeKind::Function, Some(2)),
        ]
    );
    let scope = |name: &str| facts.bindings.iter().find(|b| b.name == name).unwrap().scope;
    assert_eq!(scope("arg"), 3);
    assert_eq!(scope("local"), 2);
}

#[test]
fn kotlin_lambdas_open_scopes_wherever_they_stand() {
    let src = "class A(val run: Runner = make { one: Int -> one }) {\n\
               fun f(cb: Runner = make { two: Int -> two }) { val three = 3 }\n}";
    let facts = KotlinExtractor.extract(src, "a.kt").unwrap();
    let scopes: Vec<_> = facts.scopes.iter().map(|s| (s.kind, s.parent)).collect();
    assert_eq!(
        scopes,
        vec![
            (ScopeKind::Module, None),
            (ScopeKind::Type, Some(0)),
            (ScopeKind::Function, Some(1)),
            (ScopeKind::Function, Some(1)),
            (ScopeKind::Function, Some(3)),
        ]
    );
    let scope = |name: &str| facts.bindings.iter().find(|b| b.name == name).unwrap().scope;
    assert_eq!((scope("one"), scope("two"), scope("three")), (2, 4, 3));
}

#[test]
fn csharp_types_are_not_read() {
    let src = "class Child : Base, IFace<Item> { }";
    let facts = CSharpExtractor.extract(src, "A.cs").unwrap();
    assert!(names(&facts, RefRole::Read).is_empty());
    assert_eq!(names(&facts, RefRole::IsImplementation), vec!["Base", "IFace"]);
}

#[test]
fn lua_locals_in_functions_are_bound() {
    let src = "function run(arg)\n  local first, second = 1, 2\n  local third\nend\nlocal outer = 3\n";
    let facts = LuaExtractor.extract(src, "src/a.lua").unwrap();
    let locals: Vec<_> = facts
        .bindings
        .iter()
        .filter(|b| b.kind == BindingKind::Local)
        .map(|b| (b.name.as_str(), b.scope))
        .collect();
    assert_eq!(locals, vec![("first", 1), ("second", 1), ("third", 1)]);
    assert_eq!(bound(&facts, BindingKind::Param), vec!["arg"]);
}

#[test]
fn csharp_loops_and_handlers_bind_names() {
    let src = "class A { void F() { foreach (var item in items) { } \
               try { } catch (Exception error) { } } }";
    let facts = CSharpExtractor.extract(src, "A.cs").unwrap();
    assert_eq!(bound(&facts, BindingKind::Local), vec!["item"]);
    assert_eq!(bound(&facts, BindingKind::Param), vec!["error"]);
    assert_eq!(names(&facts, RefRole::Read), vec!["items"]);
}

#[test]
fn cpp_structured_bindings_are_bound_and_not_read() {
    let src = "void f() { auto [first, second] = pair; for (auto& [key, value] : table) { } }";
    let facts = CppExtractor.extract(src, "a.cpp").unwrap();
    assert_eq!(bound(&facts, BindingKind::Local), vec!["first", "second", "key", "value"]);
    assert_eq!(names(&facts, RefRole::Read), vec!["pair", "table"]);
}

#[test]
fn java_qualified_types_are_referred_to_by_their_last_name() {
    let src = "class A { com.example.Config conf; Outer.Inner make() { return null; } }";
    let facts = JavaExtractor.extract(src, "A.java").unwrap();
    let refs: Vec<_> = facts
        .references
        .iter()
        .filter(|r| r.role == RefRole::TypeRef)
        .map(|r| (r.name.as_str(), r.type_ref_ctx))
        .collect();
    assert_eq!(
        refs,
        vec![
            ("Config", Some(TypeRefContext::Field)),
            ("Inner", Some(TypeRefContext::ReturnType)),
        ]
    );
}
