use codegraph::error::CodegraphError;
use codegraph::extract::c::{c_namespaces, jni_exports, CExtractor};
use codegraph::extract::cpp::{cpp_namespaces, CppExtractor};
use codegraph::extract::csharp::CSharpExtractor;
use codegraph::extract::dart::{dart_namespaces, DartExtractor};
use codegraph::extract::go::GoExtractor;
use codegraph::extract::hcl::HclExtractor;
use codegraph::extract::java::{jni_mangle, JavaExtractor};
use codegraph::extract::kotlin::KotlinExtractor;
use codegraph::extract::lua::{lua_namespaces, LuaExtractor};
use codegraph::extract::{
    extract_path, innermost_scope, is_file_level, is_reportable, language_of_path,
    namespace_descriptors, push_scope, Extractor,
};
use codegraph::graph::types::{
    BindingKind, BindingTarget, ByteSpan, EntryPoint, FfiAbi, FileFacts, RefRole, Scope, ScopeKind,
    SymbolKind, Visibility,
};
use codegraph::lang::Language;
use codegraph::symbol::{Descriptor, SymbolId};

const C_SOURCE: &str = "struct Pair { int left; };\n\
static int total = 0;\n\
int sum(struct Pair *pair, int extra) {\n\
  int result = total + extra;\n\
  if (extra) { int inner = result; total = inner; }\n\
  return result;\n\
}\n\
int main(void) { return sum(0, 1); }\n";

/// One file of each language.
fn samples() -> Vec<(&'static str, &'static str)> {
    vec![
        ("src/calc/sum.c", C_SOURCE),
        (
            "src/net/sock.cpp",
            "namespace net { class Sock { public: void open(int port) { this->check(port); } \
             void check(int port); private: int state; }; }\n\
             int main() { net::Sock sock; sock.open(80); auto fn = [](int arg) { return arg; }; }",
        ),
        (
            "src/App/Main.cs",
            "using System.Text;\nnamespace App { class Main { int field; \
             static void Run(Repo repo) { var item = new Item(); repo.Save(item); this.Stop(); } } }",
        ),
        (
            "lib/models/user.dart",
            "import 'package:a/b.dart' show Base;\nclass User extends Base { String name; \
             void save(Repo repo) { var copy = name; repo.put(copy); this.log(); } }",
        ),
        (
            "src/auth/session.go",
            "package auth\nimport \"fmt\"\nfunc Open(name string) { copy := name; fmt.Println(copy) }\n\
             func (s *Server) ServeHTTP() { s.run() }\n",
        ),
        (
            "infra/main.tf",
            "resource \"aws_instance\" \"web\" { subnet_id = aws_subnet.main.id }\n\
             data \"aws_instance\" \"web\" {}\nmodule \"vpc\" {}\n",
        ),
        (
            "src/com/example/Service.java",
            "package com.example;\nimport java.util.List;\npublic class Service implements Runnable { \
             private int count; native void poke(); public static void main(String[] args) { \
             var repo = new Repo(); repo.save(args); this.stop(); count = 1; } }",
        ),
        (
            "src/com/example/Auth.kt",
            "package com.example\nimport com.other.Repo\nclass Auth { val limit = 3\n\
             fun login(user: String) { val repo = Repo(); repo.find(user); this.audit(user) } }\n\
             fun main() { run() }\n",
        ),
        (
            "src/util.lua",
            "local http = require('net.http')\nlocal M = {}\nfunction M.get(url) local conn = http.open(url)\n\
             conn:send(url) end\ncounter = 1\nreturn M\n",
        ),
    ]
}

fn facts_of(path: &str, source: &str) -> FileFacts {
    extract_path(path, source).unwrap()
}

#[test]
fn the_last_symbol_is_the_file_as_a_whole() {
    for (path, source) in samples() {
        let facts = facts_of(path, source);
        let module = facts.symbols.last().unwrap();
        assert_eq!(module.kind, SymbolKind::Module, "{path}");
        assert_eq!(module.span, ByteSpan { start: 0, end: source.len() }, "{path}");
        assert_eq!(facts.file, path);
    }
}

#[test]
fn scopes_form_a_tree_below_that_of_the_file() {
    for (path, source) in samples() {
        let facts = facts_of(path, source);
        assert_eq!(facts.scopes[0].parent, None, "{path}");
        assert_eq!(facts.scopes[0].kind, ScopeKind::Module, "{path}");
        assert_eq!(facts.scopes[0].span, ByteSpan { start: 0, end: source.len() }, "{path}");
        for k in 1..facts.scopes.len() {
            let parent = facts.scopes[k].parent.unwrap();
            assert!(parent < k, "{path}");
        }
    }
}

#[test]
fn each_scope_lies_in_its_parent() {
    for (path, source) in samples() {
        let facts = facts_of(path, source);
        for k in 1..facts.scopes.len() {
            let scope = &facts.scopes[k];
            let parent = &facts.scopes[scope.parent.unwrap()];
            assert!(parent.span.start <= scope.span.start, "{path}");
            assert!(scope.span.end <= parent.span.end, "{path}");
        }
    }
}

#[test]
fn each_reference_has_the_innermost_scope_at_its_place() {
    for (path, source) in samples() {
        let facts = facts_of(path, source);
        for r in &facts.references {
            assert_eq!(r.scope, innermost_scope(r.occ.byte, &facts.scopes), "{path} {}", r.name);
            let id = r.scope.unwrap();
            for later in &facts.scopes[id + 1..] {
                assert!(!(later.span.start <= r.occ.byte && r.occ.byte < later.span.end), "{path}");
            }
        }
    }
}

#[test]
fn each_definition_is_bound_in_the_whole_file() {
    for (path, source) in samples() {
        let facts = facts_of(path, source);
        let defs = &facts.symbols[..facts.symbols.len() - 1];
        assert!(!defs.is_empty(), "{path}");
        for s in defs {
            assert!(
                facts.bindings.iter().any(|b| b.kind == BindingKind::Definition
                    && b.name == s.name
                    && b.scope == 0
                    && b.target == BindingTarget::Def(s.id.clone())),
                "{path} {}",
                s.name
            );
        }
    }
}

#[test]
fn each_import_is_bound() {
    for (path, source) in samples() {
        if path.ends_with(".c") || path.ends_with(".cpp") || path.ends_with(".tf") {
            continue;
        }
        let facts = facts_of(path, source);
        let imports: Vec<_> =
            facts.references.iter().filter(|r| r.role == RefRole::Import).collect();
        assert!(!imports.is_empty(), "{path}");
        for r in imports {
            assert!(
                facts.bindings.iter().any(|b| b.kind == BindingKind::Import
                    && b.name == r.name
                    && b.intro == r.occ.byte
                    && Some(b.scope) == r.scope),
                "{path} {}",
                r.name
            );
        }
    }
}

#[test]
fn locals_are_bound_where_they_stand_and_never_in_the_file() {
    for (path, source) in samples() {
        let facts = facts_of(path, source);
        for b in &facts.bindings {
            if b.kind == BindingKind::Local || b.kind == BindingKind::Param {
                assert_eq!(Some(b.scope), innermost_scope(b.intro, &facts.scopes), "{path}");
                assert_eq!(b.target, BindingTarget::Local, "{path}");
            }
            if b.kind == BindingKind::Local {
                assert!(b.scope > 0, "{path} {}", b.name);
                assert!(!is_file_level(b.intro, &facts.scopes), "{path}");
            }
        }
    }
}

#[test]
fn locals_of_cpp_and_kotlin_stand_in_functions_and_blocks() {
    for (path, source) in samples() {
        if path.ends_with(".cpp") || path.ends_with(".kt") {
            let facts = facts_of(path, source);
            let locals: Vec<_> =
                facts.bindings.iter().filter(|b| b.kind == BindingKind::Local).collect();
            assert!(!locals.is_empty(), "{path}");
            for b in locals {
                let kind = facts.scopes[b.scope].kind;
                assert!(kind == ScopeKind::Function || kind == ScopeKind::Block, "{path}");
            }
        }
    }
}

#[test]
fn references_fit_in_their_file() {
    for (path, source) in samples() {
        let facts = facts_of(path, source);
        assert!(!facts.references.is_empty(), "{path}");
        for r in &facts.references {
            assert_eq!(r.occ.file, path);
            if r.role == RefRole::Call || r.role == RefRole::Read || r.role == RefRole::Write {
                assert!(is_reportable(&r.name), "{path} {}", r.name);
            }
            if r.self_receiver {
                assert_eq!(r.role, RefRole::Call, "{path}");
                assert_eq!(r.qualifier, None, "{path}");
            }
            if r.type_ref_ctx.is_some() {
                assert_eq!(r.role, RefRole::TypeRef, "{path}");
            }
        }
    }
}

#[test]
fn definitions_belong_to_their_file() {
    for (path, source) in samples() {
        let facts = facts_of(path, source);
        let lang = language_of_path(path).unwrap();
        assert_eq!(facts.lang, lang.as_str());
        for s in &facts.symbols[..facts.symbols.len() - 1] {
            assert_eq!(s.lang, lang);
            assert_eq!(s.occ.file, path);
            assert_eq!(s.id.descriptors.last().unwrap().name(), s.name);
        }
    }
}

#[test]
fn no_place_is_read_and_written_or_called() {
    for (path, source) in samples() {
        let facts = facts_of(path, source);
        for r in facts.references.iter().filter(|r| r.role == RefRole::Read) {
            assert!(
                !facts.references.iter().any(|o| o.occ == r.occ
                    && o.name == r.name
                    && (o.role == RefRole::Write || o.role == RefRole::Call)),
                "{path} {}",
                r.name
            );
        }
    }
}

#[test]
fn reads_stand_in_document_order() {
    for (path, source) in samples() {
        let facts = facts_of(path, source);
        let reads: Vec<usize> = facts
            .references
            .iter()
            .filter(|r| r.role == RefRole::Read)
            .map(|r| r.occ.byte)
            .collect();
        assert!(reads.windows(2).all(|w| w[0] < w[1]), "{path}: {reads:?}");
    }
}

#[test]
fn marking_neither_loses_nor_repeats_a_call() {
    let src = "class A { void f() { this.stop(); repo.save(); run(); } }";
    let facts = JavaExtractor.extract(src, "src/A.java").unwrap();
    let calls: Vec<_> = facts
        .references
        .iter()
        .filter(|r| r.role == RefRole::Call)
        .map(|r| (r.name.as_str(), r.self_receiver, r.qualifier.as_deref()))
        .collect();
    assert_eq!(
        calls,
        vec![("stop", true, None), ("save", false, Some("repo")), ("run", false, None)]
    );
}

#[test]
fn paired_c_files_share_namespaces() {
    assert_eq!(c_namespaces("src/auth/token.c"), vec!["auth", "token"]);
    assert_eq!(c_namespaces("src/auth/token.h"), c_namespaces("src/auth/token.c"));
    assert_eq!(c_namespaces("a.c.h"), c_namespaces("a.c.c"));
}

#[test]
fn paired_cpp_files_share_namespaces() {
    let stem = cpp_namespaces("src/net/sock.cpp");
    assert_eq!(stem, vec!["net", "sock"]);
    for ext in ["cc", "cxx", "hh", "hpp", "hxx", "c", "h"] {
        assert_eq!(cpp_namespaces(&format!("src/net/sock.{ext}")), stem, "{ext}");
    }
}

#[test]
fn paired_lua_files_share_namespaces() {
    assert_eq!(lua_namespaces("src/net/http.lua"), vec!["net", "http"]);
    assert_eq!(lua_namespaces("src/net/http.luau"), lua_namespaces("src/net/http.lua"));
}

#[test]
fn the_directory_of_a_go_file_is_its_package() {
    let id = |path: &str, source: &str| {
        let facts = GoExtractor.extract(source, path).unwrap();
        facts.symbols.last().unwrap().id.to_scip_string()
    };
    let a = id("src/a/config/x.go", "package config\n");
    let b = id("src/b/config/x.go", "package config\n");
    assert_eq!(a, "codegraph . . . a/config/");
    assert_eq!(b, "codegraph . . . b/config/");
    assert_eq!(id("a/config/y.go", "package other\nvar X = 1\n"), a);
    assert_eq!(id("util.go", "package main\n"), "codegraph . . . main/");
    assert_eq!(id("util.go", ""), "codegraph . . . util/");
}

#[test]
fn different_namespaces_have_different_texts() {
    let text = |names: Vec<&str>| {
        let names: Vec<String> = names.into_iter().map(String::from).collect();
        SymbolId { descriptors: namespace_descriptors(&names) }.to_scip_string()
    };
    assert_eq!(text(vec!["a", "b"]), "codegraph . . . a/b/");
    assert_ne!(text(vec!["a", "b"]), text(vec!["ab"]));
    assert_ne!(text(vec!["a"]), text(vec!["a", "a"]));
    assert_eq!(text(vec![]), "codegraph . . . ");
}

#[test]
fn definitions_of_different_files_have_different_identities() {
    let a = CExtractor.extract("int f(void) { return 0; }", "src/a.c").unwrap();
    let b = CExtractor.extract("int f(void) { return 0; }", "src/a/f.c").unwrap();
    assert_eq!(a.symbols[0].name, b.symbols[0].name);
    assert_ne!(a.symbols[0].id, b.symbols[0].id);
}

#[test]
fn each_step_of_an_identity_has_its_own_mark() {
    let id = SymbolId {
        descriptors: vec![
            Descriptor::Namespace("ns".to_string()),
            Descriptor::Type("T".to_string()),
            Descriptor::method("run".to_string()),
        ],
    };
    assert_eq!(id.to_scip_string(), "codegraph . . . ns/T#run().");
    let id = SymbolId {
        descriptors: vec![
            Descriptor::Macro("MAX".to_string()),
            Descriptor::Term("x".to_string()),
        ],
    };
    assert_eq!(id.to_scip_string(), "codegraph . . . MAX!x.");
}

#[test]
fn a_native_method_meets_the_function_that_implements_it() {
    let java = JavaExtractor
        .extract("package a.b;\nclass C { native void m(); }", "src/a/b/C.java")
        .unwrap();
    let name = jni_mangle(&["a".to_string(), "b".to_string()], "C", "m");
    assert_eq!(name, "Java_a_b_C_m");
    assert!(java.references.iter().any(|r| r.role == RefRole::Call && r.name == name));
    let c = CExtractor
        .extract("void Java_a_b_C_m(void) {}\nvoid other(void) {}", "src/impl.c")
        .unwrap();
    assert_eq!(c.ffi_exports.len(), 1);
    assert_eq!(c.ffi_exports[0].abi, FfiAbi::Jni);
    assert_eq!(c.ffi_exports[0].export_name, name);
    assert_eq!(c.ffi_exports[0].symbol, c.symbols[0].id);
    assert_eq!(jni_exports(&c.symbols).len(), 1);
}

#[test]
fn a_class_without_a_package_is_mangled_without_one() {
    assert_eq!(jni_mangle(&[], "C", "m"), "Java_C_m");
    let facts = JavaExtractor.extract("class C { native void m(); }", "src/C.java").unwrap();
    let calls: Vec<_> = facts
        .references
        .iter()
        .filter(|r| r.role == RefRole::Call)
        .map(|r| r.name.as_str())
        .collect();
    assert_eq!(calls, vec!["Java_C_m"]);
}

#[test]
fn a_require_is_an_import_and_no_call() {
    let facts = LuaExtractor
        .extract("local http = require('net.http')\nrequire('log')\nrequire('a.b')\n", "src/x.lua")
        .unwrap();
    assert!(!facts.references.iter().any(|r| r.name == "require"));
    let imports: Vec<_> = facts
        .references
        .iter()
        .filter(|r| r.role == RefRole::Import)
        .map(|r| (r.name.as_str(), r.from_path.as_deref()))
        .collect();
    assert_eq!(
        imports,
        vec![("http", Some("net.http")), ("log", Some("log")), ("b", Some("a.b"))]
    );
}

#[test]
fn hcl_references_have_the_scope_of_the_file() {
    let facts = HclExtractor
        .extract("resource \"a\" \"b\" { x = c.d.e\n y = \"${module.m.id}\" }", "main.tf")
        .unwrap();
    let refs: Vec<_> = facts
        .references
        .iter()
        .map(|r| (r.qualifier.as_deref(), r.name.as_str(), r.scope))
        .collect();
    assert_eq!(refs, vec![(Some("c"), "d", Some(0)), (Some("module"), "m", Some(0))]);
    assert_eq!(facts.scopes.len(), 1);
}

#[test]
fn data_and_resources_have_different_identities() {
    let facts = HclExtractor
        .extract("resource \"t\" \"n\" {}\ndata \"t\" \"n\" {}\nmodule \"n\" {}", "main.tf")
        .unwrap();
    let ids: Vec<String> = facts.symbols.iter().map(|s| s.id.to_scip_string()).collect();
    assert_eq!(
        ids,
        vec![
            "codegraph . . . t/n#",
            "codegraph . . . data/t/n#",
            "codegraph . . . module/n#",
            "codegraph . . . main/",
        ]
    );
}

#[test]
fn the_program_starts_at_main_only() {
    let starts = |facts: FileFacts| -> Vec<String> {
        facts
            .symbols
            .iter()
            .filter(|s| s.entry_points.contains(&EntryPoint::Main))
            .map(|s| s.name.clone())
            .collect()
    };
    assert_eq!(starts(facts_of("src/calc/sum.c", C_SOURCE)), vec!["main"]);
    let cs = "class P { static void Main() {} void main() {} static void Other() {} }";
    assert_eq!(starts(CSharpExtractor.extract(cs, "P.cs").unwrap()), vec!["Main"]);
    let go = "package util\nfunc main() {}\n";
    assert!(starts(GoExtractor.extract(go, "util.go").unwrap()).is_empty());
    let kt = "class A { fun main() {} }\nfun main() {}\n";
    assert_eq!(starts(KotlinExtractor.extract(kt, "a.kt").unwrap()), vec!["main"]);
}

#[test]
fn visibilities_are_those_of_the_language() {
    let seen = |facts: FileFacts| -> Vec<Visibility> {
        let n = facts.symbols.len() - 1;
        facts.symbols[..n].iter().map(|s| s.visibility).collect()
    };
    for v in seen(facts_of("src/calc/sum.c", C_SOURCE)) {
        assert!(v == Visibility::Public || v == Visibility::Private);
    }
    let go = "package p\nvar Open = 1\nvar closed = 2\nvar _Odd = 3\n";
    assert_eq!(
        seen(GoExtractor.extract(go, "p/a.go").unwrap()),
        vec![Visibility::Public, Visibility::Internal, Visibility::Internal]
    );
    let dart = "class Open {}\nclass _Closed {}\n";
    assert_eq!(
        seen(DartExtractor.extract(dart, "lib/a.dart").unwrap()),
        vec![Visibility::Public, Visibility::Internal]
    );
    let cpp = "class A { int a; public: int b; protected: int c; };";
    assert_eq!(
        seen(CppExtractor.extract(cpp, "a.cpp").unwrap()),
        vec![
            Visibility::Public,
            Visibility::Private,
            Visibility::Public,
            Visibility::Protected,
        ]
    );
}

#[test]
fn the_innermost_scope_is_the_last_that_holds_the_byte() {
    let mut scopes: Vec<Scope> = Vec::new();
    let root = push_scope(&mut scopes, None, ByteSpan { start: 0, end: 20 }, ScopeKind::Module);
    let outer =
        push_scope(&mut scopes, Some(root), ByteSpan { start: 2, end: 12 }, ScopeKind::Function);
    let inner =
        push_scope(&mut scopes, Some(outer), ByteSpan { start: 4, end: 8 }, ScopeKind::Block);
    assert_eq!((root, outer, inner), (0, 1, 2));
    assert_eq!(innermost_scope(1, &scopes), Some(root));
    assert_eq!(innermost_scope(2, &scopes), Some(outer));
    assert_eq!(innermost_scope(7, &scopes), Some(inner));
    assert_eq!(innermost_scope(8, &scopes), Some(outer));
    assert_eq!(innermost_scope(19, &scopes), Some(root));
    assert_eq!(innermost_scope(20, &scopes), None);
    assert!(is_file_level(0, &scopes));
    assert!(!is_file_level(4, &scopes));
    assert!(!is_file_level(20, &scopes));
}

#[test]
fn paths_name_their_language() {
    assert_eq!(language_of_path("a/b.h"), Some(Language::C));
    assert_eq!(language_of_path("a/b.hpp"), Some(Language::Cpp));
    assert_eq!(language_of_path("a/b.tfvars"), Some(Language::Hcl));
    assert_eq!(language_of_path("a/b.kts"), Some(Language::Kotlin));
    assert_eq!(language_of_path("a/b.txt"), None);
    assert_eq!(language_of_path("c"), None);
}

#[test]
fn a_file_of_an_unknown_language_is_refused() {
    match extract_path("notes.txt", "int x;") {
        Err(CodegraphError::Unsupported { path }) => assert_eq!(path, "notes.txt"),
        other => panic!("unexpected: {other:?}"),
    }
}

#[test]
fn an_empty_file_has_its_module_only() {
    for (path, _) in samples() {
        let facts = facts_of(path, "");
        assert_eq!(facts.symbols.len(), 1, "{path}");
        assert!(facts.references.is_empty(), "{path}");
        assert_eq!(facts.scopes.len(), 1, "{path}");
        assert!(facts.bindings.is_empty(), "{path}");
    }
}

#[test]
fn dart_names_lead_from_the_source_root() {
    assert_eq!(dart_namespaces("lib/models/user.dart"), vec!["models", "user"]);
    assert_eq!(dart_namespaces("src/utils/helper.dart"), vec!["utils", "helper"]);
}
