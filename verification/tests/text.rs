use codegraph::text::{
    after_last_part_text, after_last_text, before_last_text, byte_length, contains_char, ends_with,
    find_last, has_word, is_capitalized, is_empty, one_line_text, same, simple_type_name,
    slice_text, space, split_pieces, split_segments, starts_with, strip_prefix, strip_quotes,
    strip_suffix, trim, trim_of, unquote,
};

#[test]
fn slices_go_by_bytes() {
    assert_eq!(slice_text("abcdef", 1, 3), "bc");
    assert_eq!(slice_text("grün", 0, 4), "grü");
    assert_eq!(slice_text("grün", 2, 5), "ün");
    assert_eq!(slice_text("grün", 5, 5), "");
}

#[test]
fn slices_that_do_not_fit_are_empty() {
    assert_eq!(slice_text("grün", 3, 5), "");
    assert_eq!(slice_text("abc", 2, 1), "");
    assert_eq!(slice_text("abc", 1, 9), "");
}

#[test]
fn texts_are_compared_by_their_characters() {
    assert!(same("grün", "grün"));
    assert!(!same("grün", "grun"));
    assert!(!same("ab", "abc"));
    assert!(is_empty(""));
    assert!(!is_empty(" "));
    assert_eq!(byte_length("grün"), 5);
}

#[test]
fn space_is_what_unicode_calls_white() {
    assert!(space(' '));
    assert!(space('\t'));
    assert!(space('\u{3000}'));
    assert!(!space('_'));
}

#[test]
fn a_signature_is_one_line_up_to_a_stop() {
    assert_eq!(one_line_text("int  f(\n    int a)\n{ return a; }", "{;"), "int f( int a)");
    assert_eq!(one_line_text("int x;", "{;"), "int x");
    assert_eq!(one_line_text("  a\t b  ", "{"), "a b");
    assert_eq!(one_line_text("{", "{"), "");
}

#[test]
fn a_text_is_cut_at_the_last_separator() {
    assert_eq!(find_last("a/b/c", '/'), Some(3));
    assert_eq!(find_last("abc", '/'), None);
    assert_eq!(after_last_text("a/b/c", '/'), "c");
    assert_eq!(after_last_text("abc", '/'), "abc");
    assert_eq!(before_last_text("a.b.c", '.'), "a.b");
    assert_eq!(before_last_text("abc", '.'), "abc");
    assert_eq!(after_last_part_text("a::b::c", "::"), "c");
    assert_eq!(after_last_part_text("abc", "::"), "abc");
}

#[test]
fn prefixes_and_suffixes_are_stripped_once() {
    assert!(ends_with("a.c.c", ".c"));
    assert_eq!(strip_suffix("a.c.c", ".c"), "a.c");
    assert_eq!(strip_suffix("a.h", ".c"), "a.h");
    assert!(starts_with("src/src/a", "src/"));
    assert_eq!(strip_prefix("src/src/a", "src/"), "src/a");
    assert_eq!(strip_prefix("lib/a", "src/"), "lib/a");
}

#[test]
fn pieces_are_never_empty() {
    assert_eq!(split_segments("/a//b/", '/'), vec!["a", "b"]);
    assert!(split_segments("//", '/').is_empty());
    assert_eq!(split_pieces("a::b::::c", "::"), vec!["a", "b", "c"]);
    assert_eq!(split_pieces("a:b", "::"), vec!["a:b"]);
}

#[test]
fn quotes_are_stripped_in_pairs() {
    assert_eq!(strip_quotes("\"a\"", "\""), Some("a"));
    assert_eq!(strip_quotes("\"a", "\""), None);
    assert_eq!(strip_quotes("\"", "\""), None);
    assert_eq!(unquote("\"a b\""), "a b");
    assert_eq!(unquote("a"), "a");
}

#[test]
fn text_is_trimmed_on_both_sides() {
    assert_eq!(trim("  a b\n"), "a b");
    assert_eq!(trim(" \t"), "");
    assert_eq!(trim_of("''a'b''", '\''), "a'b");
}

#[test]
fn the_simple_name_of_a_type_has_no_path_and_no_arguments() {
    assert_eq!(simple_type_name("java.util.List<String>", "."), "List");
    assert_eq!(simple_type_name("List<a.b.C>", "."), "List");
    assert_eq!(simple_type_name("Plain", "."), "Plain");
    assert_eq!(simple_type_name("std::vector<int>", "::"), "vector");
}

#[test]
fn a_word_stands_between_spaces() {
    assert!(has_word("sealed interface ", "interface"));
    assert!(!has_word("myinterface ", "interface"));
    assert!(contains_char("a.*", '*'));
    assert!(!contains_char("a.b", '*'));
}

#[test]
fn upper_case_is_known_beyond_ascii() {
    assert!(is_capitalized("Name"));
    assert!(is_capitalized("Élan"));
    assert!(is_capitalized("Ωmega"));
    assert!(!is_capitalized("name"));
    assert!(!is_capitalized("élan"));
    assert!(!is_capitalized("_Name"));
    assert!(!is_capitalized("1"));
    assert!(!is_capitalized(""));
}
