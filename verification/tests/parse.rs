use codegraph::error::CodegraphError;
use codegraph::extract::c::CExtractor;
use codegraph::extract::kotlin::KotlinExtractor;
use codegraph::extract::Extractor;
use codegraph::graph::types::RefRole;
use codegraph::lang::Language;
use codegraph::parse::{can_parse, parse};

#[test]
fn nodes_stand_in_document_order() {
    let parsed = parse(Language::C, "int x;").unwrap();
    let tree = parsed.syntax();
    assert_eq!(tree.len(), 5);
    let kinds: Vec<&str> = (0..5).map(|i| tree.kind(i)).collect();
    assert_eq!(
        kinds,
        vec!["translation_unit", "declaration", "primitive_type", "identifier", ";"]
    );
    assert_eq!(tree.source(), "int x;");
}

#[test]
fn nodes_know_their_places_and_relatives() {
    let parsed = parse(Language::C, "int a;\nint x = 1;").unwrap();
    let tree = parsed.syntax();
    let second = tree.after(1);
    assert_eq!(tree.kind(second), "declaration");
    assert_eq!((tree.row(second), tree.column(second)), (1, 0));
    assert_eq!((tree.start(second), tree.end(second)), (7, 17));
    assert_eq!(tree.text(second), "int x = 1;");
    assert_eq!(tree.parent(second), Some(0));
    assert_eq!(tree.parent(0), None);
    let declarator = tree.child(second, "declarator").unwrap();
    assert_eq!(tree.kind(declarator), "init_declarator");
    assert_eq!(tree.field_text(declarator, "declarator").as_deref(), Some("x"));
    assert_eq!(tree.field_text(declarator, "value").as_deref(), Some("1"));
    assert_eq!(tree.field_text(declarator, "type"), None);
    assert!(tree.named(declarator));
    assert_eq!(tree.after(second), tree.len());
}

#[test]
fn anonymous_nodes_are_not_named() {
    let parsed = parse(Language::C, "int x;").unwrap();
    let tree = parsed.syntax();
    assert!(!tree.named(4));
    assert_eq!(tree.named_child(1), Some(2));
    assert_eq!(tree.nth_named_child(1, 1), Some(3));
    assert_eq!(tree.nth_named_child(1, 2), None);
    assert_eq!(tree.child_of_kind(1, ";"), Some(4));
    assert_eq!(tree.named_child_of_kind(1, ";"), None);
}

#[test]
fn an_empty_text_has_a_root_only() {
    let parsed = parse(Language::Go, "").unwrap();
    assert_eq!(parsed.syntax().len(), 1);
    assert_eq!(parsed.syntax().kind(0), "source_file");
}

#[test]
fn broken_text_is_parsed_as_well() {
    let parsed = parse(Language::Java, "class {{{ ???").unwrap();
    assert!(parsed.syntax().len() > 1);
}

#[test]
fn offsets_count_bytes() {
    let parsed = parse(Language::Lua, "local grün = 1").unwrap();
    let tree = parsed.syntax();
    let name = (0..tree.len()).find(|&i| tree.is(i, "identifier")).unwrap();
    assert_eq!(tree.text(name), "grün");
    assert_eq!((tree.start(name), tree.end(name)), (6, 11));
}

#[test]
fn kotlin_texts_with_an_annotation_behind_the_last_line_are_not_parsed() {
    let open = "class A\n@B";
    assert!(!can_parse(Language::Kotlin, open));
    assert!(parse(Language::Kotlin, open).is_none());
    assert!(parse(Language::Kotlin, "class A\n@B\n").is_some());
    assert!(parse(Language::Kotlin, "@B class A\n").is_some());
    assert!(parse(Language::Kotlin, "class A\nval b = 1").is_some());
    assert!(parse(Language::Java, "class A {}\n@B").is_some());
}

#[test]
fn a_file_that_cannot_be_parsed_is_an_error() {
    match KotlinExtractor.extract("class A\n@B", "a.kt") {
        Err(CodegraphError::Parse { path }) => assert_eq!(path, "a.kt"),
        other => panic!("unexpected: {other:?}"),
    }
    assert!(KotlinExtractor.extract("class A\n@B\n", "a.kt").is_ok());
}

#[test]
fn a_call_stands_where_its_name_does() {
    let facts = CExtractor
        .extract("int f(void) {\n  going(1);\n  stop(2);\n}", "a.c")
        .unwrap();
    let calls: Vec<_> = facts
        .references
        .iter()
        .filter(|r| r.role == RefRole::Call)
        .map(|r| (r.name.as_str(), r.occ.byte, r.occ.row, r.occ.column))
        .collect();
    assert_eq!(calls, vec![("going", 16, 1, 2), ("stop", 28, 2, 2)]);
}
