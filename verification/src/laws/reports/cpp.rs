//! What the facts of C++ files tell of their nodes.

use crate::extract::cpp::{
    access, aggregate_at, aggregate_kind, alias_symbols, base_of, bases_in, bindings_at,
    bindings_in, class_bases, declaration_parts_in, declarator_symbol, declarators_in, declared,
    declared_in, defs_at, defs_in, facts_of, function_declarator, holds_types, in_code,
    inherits_at, inherits_in_document_order, inherits_of_nodes, inner_namespaces, introduced,
    is_templated, leaf_name, leaves_at, local_at, member_at, member_declarators_in,
    member_symbol, member_symbols, members_in, namespaces_of, not_read, own_type_refs, param_at,
    params_in, part_scopes, qualified, read_of, reads_at, reads_in_document_order,
    reads_of_nodes, references_of, scopes_with, scopes_with_all, template_args_in,
    template_lists_in, templated_in, templated_members_in, type_refs_at, type_refs_in,
    type_refs_in_document_order, type_refs_of_nodes, typed_aggregate, typed_name, typed_place,
    typedefs_in, unpacked, unpacked_in, write_of, writes_at, writes_in_document_order,
    writes_of_nodes,
};
use crate::extract::{
    Ctx, calls_qualified, definitions_bound, extends, home_scope, is_section, local_binding,
    module_scope, occurrence_at, receiver_marked, reference_at, self_marked, span_at, static_at,
    static_in, type_reference_at,
};
use crate::graph::types::{
    BindingKind, BindingView, EntryPointView, RefRole, ReferenceView, Scope, ScopeId, ScopeKind,
    SymbolKind, SymbolView, TypeRefContext, Visibility,
};
use crate::items::{in_order_all, in_order_each};
use crate::lang::Language;
use crate::laws::cpp::{definitions_belong, is_defined, is_read, locals_are_nested, reads_are_sound};
use crate::laws::{belongs, identifiers_apart};
use crate::parse::CaptureView;
use crate::symbol::{DescriptorView, namespace_steps};
use crate::syntax::{Syntax, field_is_child, group_child_bounds};
use crate::text::{
    after_last_part, byte_count, has_prefix, one_line, other_suffix, own_suffix, pieces,
    simple_name, text_between,
};
use super::bound::{
    binds_definition, bound_has_origin, definition_is_bound, has_origin, is_scoped,
    place_is_scoped,
};
use super::calls::{
    call_is_found, calls_at, calls_name, captures, lacks, mark_is_found, plain_call,
    qualified_call_is_found, receiver_is_found,
};
use super::texts::{are_parts, join, joined_comes_apart, prefix_comes_off};
use super::{
    binds, binds_as, child_stands_in_field, defines, defines_as, defines_in, defines_under,
    extends_module, holder_is_found, home_is_innermost, in_either, is_at, is_entered,
    is_innermost, is_module, is_reported, local_is_bound, long_enough, opens_scope,
    opens_scope_stays, reached_is_behind, refers, refers_to_type, reported, scope_is_within,
    starts_with,
};
use vstd::prelude::*;

verus! {

broadcast use group_child_bounds;

/// What the definitions of a file are read from.
spec fn context(t: Syntax, file: Seq<char>) -> Ctx {
    Ctx { tree: t, file, lang: Language::Cpp }
}

/// The namespaces of a file.
spec fn steps(t: Syntax, file: Seq<char>) -> Seq<Seq<char>> {
    namespaces_of(file)
}

proof fn defs_at_kinds()
    ensures
        "namespace_definition"@ != "function_definition"@,
        "namespace_definition"@ != "declaration"@,
        "namespace_definition"@ != "type_definition"@,
        "namespace_definition"@ != "alias_declaration"@,
        "namespace_definition"@ != "template_declaration"@,
        "namespace_definition"@ != "preproc_def"@,
        "namespace_definition"@ != "preproc_function_def"@,
        "template_declaration"@ != "function_definition"@,
        "template_declaration"@ != "declaration"@,
        "template_declaration"@ != "type_definition"@,
        "template_declaration"@ != "alias_declaration"@,
        "template_declaration"@ != "preproc_def"@,
        "template_declaration"@ != "preproc_function_def"@,
        "function_definition"@ != "declaration"@,
        "function_definition"@ != "type_definition"@,
        "function_definition"@ != "alias_declaration"@,
        "function_definition"@ != "preproc_def"@,
        "function_definition"@ != "preproc_function_def"@,
        "class_specifier"@ != "namespace_definition"@,
        "class_specifier"@ != "function_definition"@,
        "class_specifier"@ != "declaration"@,
        "class_specifier"@ != "type_definition"@,
        "class_specifier"@ != "alias_declaration"@,
        "class_specifier"@ != "template_declaration"@,
        "class_specifier"@ != "preproc_def"@,
        "class_specifier"@ != "preproc_function_def"@,
        "struct_specifier"@ != "namespace_definition"@,
        "struct_specifier"@ != "function_definition"@,
        "struct_specifier"@ != "declaration"@,
        "struct_specifier"@ != "type_definition"@,
        "struct_specifier"@ != "alias_declaration"@,
        "struct_specifier"@ != "template_declaration"@,
        "struct_specifier"@ != "preproc_def"@,
        "struct_specifier"@ != "preproc_function_def"@,
        "union_specifier"@ != "namespace_definition"@,
        "union_specifier"@ != "function_definition"@,
        "union_specifier"@ != "declaration"@,
        "union_specifier"@ != "type_definition"@,
        "union_specifier"@ != "alias_declaration"@,
        "union_specifier"@ != "template_declaration"@,
        "union_specifier"@ != "preproc_def"@,
        "union_specifier"@ != "preproc_function_def"@,
        "enum_specifier"@ != "namespace_definition"@,
        "enum_specifier"@ != "function_definition"@,
        "enum_specifier"@ != "declaration"@,
        "enum_specifier"@ != "type_definition"@,
        "enum_specifier"@ != "alias_declaration"@,
        "enum_specifier"@ != "template_declaration"@,
        "enum_specifier"@ != "preproc_def"@,
        "enum_specifier"@ != "preproc_function_def"@,
        "declaration"@ != "type_definition"@,
        "declaration"@ != "alias_declaration"@,
        "declaration"@ != "preproc_def"@,
        "declaration"@ != "preproc_function_def"@,
        "function_declarator"@ != "namespace_definition"@,
        "function_declarator"@ != "function_definition"@,
        "function_declarator"@ != "declaration"@,
        "function_declarator"@ != "type_definition"@,
        "function_declarator"@ != "alias_declaration"@,
        "function_declarator"@ != "template_declaration"@,
        "function_declarator"@ != "preproc_def"@,
        "function_declarator"@ != "preproc_function_def"@,
        "identifier"@ != "namespace_definition"@,
        "identifier"@ != "function_definition"@,
        "identifier"@ != "declaration"@,
        "identifier"@ != "type_definition"@,
        "identifier"@ != "alias_declaration"@,
        "identifier"@ != "template_declaration"@,
        "identifier"@ != "preproc_def"@,
        "identifier"@ != "preproc_function_def"@,
        "type_definition"@ != "alias_declaration"@,
        "type_definition"@ != "preproc_def"@,
        "type_definition"@ != "preproc_function_def"@,
        "alias_declaration"@ != "preproc_def"@,
        "alias_declaration"@ != "preproc_function_def"@,
        "preproc_def"@ != "preproc_function_def"@,
        "field_declaration"@ != "namespace_definition"@,
        "field_declaration"@ != "function_definition"@,
        "field_declaration"@ != "declaration"@,
        "field_declaration"@ != "type_definition"@,
        "field_declaration"@ != "alias_declaration"@,
        "field_declaration"@ != "template_declaration"@,
        "field_declaration"@ != "preproc_def"@,
        "field_declaration"@ != "preproc_function_def"@,
{
    reveal_strlit("namespace_definition");
    reveal_strlit("function_definition");
    reveal_strlit("declaration");
    reveal_strlit("type_definition");
    reveal_strlit("alias_declaration");
    reveal_strlit("template_declaration");
    reveal_strlit("preproc_def");
    reveal_strlit("preproc_function_def");
    reveal_strlit("class_specifier");
    reveal_strlit("struct_specifier");
    reveal_strlit("union_specifier");
    reveal_strlit("enum_specifier");
    reveal_strlit("function_declarator");
    reveal_strlit("identifier");
    reveal_strlit("field_declaration");
    assert("namespace_definition"@.len() != "function_definition"@.len());
    assert("namespace_definition"@.len() != "declaration"@.len());
    assert("namespace_definition"@.len() != "type_definition"@.len());
    assert("namespace_definition"@.len() != "alias_declaration"@.len());
    assert("namespace_definition"@[0] != "template_declaration"@[0]);
    assert("namespace_definition"@.len() != "preproc_def"@.len());
    assert("namespace_definition"@[0] != "preproc_function_def"@[0]);
    assert("template_declaration"@.len() != "function_definition"@.len());
    assert("template_declaration"@.len() != "declaration"@.len());
    assert("template_declaration"@.len() != "type_definition"@.len());
    assert("template_declaration"@.len() != "alias_declaration"@.len());
    assert("template_declaration"@.len() != "preproc_def"@.len());
    assert("template_declaration"@[0] != "preproc_function_def"@[0]);
    assert("function_definition"@.len() != "declaration"@.len());
    assert("function_definition"@.len() != "type_definition"@.len());
    assert("function_definition"@.len() != "alias_declaration"@.len());
    assert("function_definition"@.len() != "preproc_def"@.len());
    assert("function_definition"@.len() != "preproc_function_def"@.len());
    assert("class_specifier"@.len() != "namespace_definition"@.len());
    assert("class_specifier"@.len() != "function_definition"@.len());
    assert("class_specifier"@.len() != "declaration"@.len());
    assert("class_specifier"@[0] != "type_definition"@[0]);
    assert("class_specifier"@.len() != "alias_declaration"@.len());
    assert("class_specifier"@.len() != "template_declaration"@.len());
    assert("class_specifier"@.len() != "preproc_def"@.len());
    assert("class_specifier"@.len() != "preproc_function_def"@.len());
    assert("struct_specifier"@.len() != "namespace_definition"@.len());
    assert("struct_specifier"@.len() != "function_definition"@.len());
    assert("struct_specifier"@.len() != "declaration"@.len());
    assert("struct_specifier"@.len() != "type_definition"@.len());
    assert("struct_specifier"@.len() != "alias_declaration"@.len());
    assert("struct_specifier"@.len() != "template_declaration"@.len());
    assert("struct_specifier"@.len() != "preproc_def"@.len());
    assert("struct_specifier"@.len() != "preproc_function_def"@.len());
    assert("union_specifier"@.len() != "namespace_definition"@.len());
    assert("union_specifier"@.len() != "function_definition"@.len());
    assert("union_specifier"@.len() != "declaration"@.len());
    assert("union_specifier"@[0] != "type_definition"@[0]);
    assert("union_specifier"@.len() != "alias_declaration"@.len());
    assert("union_specifier"@.len() != "template_declaration"@.len());
    assert("union_specifier"@.len() != "preproc_def"@.len());
    assert("union_specifier"@.len() != "preproc_function_def"@.len());
    assert("enum_specifier"@.len() != "namespace_definition"@.len());
    assert("enum_specifier"@.len() != "function_definition"@.len());
    assert("enum_specifier"@.len() != "declaration"@.len());
    assert("enum_specifier"@.len() != "type_definition"@.len());
    assert("enum_specifier"@.len() != "alias_declaration"@.len());
    assert("enum_specifier"@.len() != "template_declaration"@.len());
    assert("enum_specifier"@.len() != "preproc_def"@.len());
    assert("enum_specifier"@.len() != "preproc_function_def"@.len());
    assert("declaration"@.len() != "type_definition"@.len());
    assert("declaration"@.len() != "alias_declaration"@.len());
    assert("declaration"@[0] != "preproc_def"@[0]);
    assert("declaration"@.len() != "preproc_function_def"@.len());
    assert("function_declarator"@.len() != "namespace_definition"@.len());
    assert("function_declarator"@[11] != "function_definition"@[11]);
    assert("function_declarator"@.len() != "declaration"@.len());
    assert("function_declarator"@.len() != "type_definition"@.len());
    assert("function_declarator"@.len() != "alias_declaration"@.len());
    assert("function_declarator"@.len() != "template_declaration"@.len());
    assert("function_declarator"@.len() != "preproc_def"@.len());
    assert("function_declarator"@.len() != "preproc_function_def"@.len());
    assert("identifier"@.len() != "namespace_definition"@.len());
    assert("identifier"@.len() != "function_definition"@.len());
    assert("identifier"@.len() != "declaration"@.len());
    assert("identifier"@.len() != "type_definition"@.len());
    assert("identifier"@.len() != "alias_declaration"@.len());
    assert("identifier"@.len() != "template_declaration"@.len());
    assert("identifier"@.len() != "preproc_def"@.len());
    assert("identifier"@.len() != "preproc_function_def"@.len());
    assert("type_definition"@.len() != "alias_declaration"@.len());
    assert("type_definition"@.len() != "preproc_def"@.len());
    assert("type_definition"@.len() != "preproc_function_def"@.len());
    assert("alias_declaration"@.len() != "preproc_def"@.len());
    assert("alias_declaration"@.len() != "preproc_function_def"@.len());
    assert("preproc_def"@.len() != "preproc_function_def"@.len());
    assert("field_declaration"@.len() != "namespace_definition"@.len());
    assert("field_declaration"@.len() != "function_definition"@.len());
    assert("field_declaration"@.len() != "declaration"@.len());
    assert("field_declaration"@.len() != "type_definition"@.len());
    assert("field_declaration"@[0] != "alias_declaration"@[0]);
    assert("field_declaration"@.len() != "template_declaration"@.len());
    assert("field_declaration"@.len() != "preproc_def"@.len());
    assert("field_declaration"@.len() != "preproc_function_def"@.len());
}

proof fn is_section_kinds()
    ensures
        "namespace_definition"@ != "preproc_if"@,
        "namespace_definition"@ != "preproc_ifdef"@,
        "namespace_definition"@ != "preproc_else"@,
        "namespace_definition"@ != "preproc_elif"@,
        "namespace_definition"@ != "preproc_elifdef"@,
        "namespace_definition"@ != "linkage_specification"@,
        "namespace_definition"@ != "declaration_list"@,
        "namespace_definition"@ != "template_declaration"@,
        "namespace_definition"@ != "function_definition"@,
        "namespace_definition"@ != "class_specifier"@,
        "namespace_definition"@ != "struct_specifier"@,
        "namespace_definition"@ != "union_specifier"@,
        "namespace_definition"@ != "enum_specifier"@,
        "namespace_definition"@ != "declaration"@,
        "namespace_definition"@ != "function_declarator"@,
        "namespace_definition"@ != "identifier"@,
        "namespace_definition"@ != "type_definition"@,
        "namespace_definition"@ != "alias_declaration"@,
        "namespace_definition"@ != "preproc_def"@,
        "namespace_definition"@ != "preproc_function_def"@,
        "namespace_definition"@ != "field_declaration"@,
        "template_declaration"@ != "preproc_if"@,
        "template_declaration"@ != "preproc_ifdef"@,
        "template_declaration"@ != "preproc_else"@,
        "template_declaration"@ != "preproc_elif"@,
        "template_declaration"@ != "preproc_elifdef"@,
        "template_declaration"@ != "linkage_specification"@,
        "template_declaration"@ != "declaration_list"@,
        "template_declaration"@ != "function_definition"@,
        "template_declaration"@ != "class_specifier"@,
        "template_declaration"@ != "struct_specifier"@,
        "template_declaration"@ != "union_specifier"@,
        "template_declaration"@ != "enum_specifier"@,
        "template_declaration"@ != "declaration"@,
        "template_declaration"@ != "function_declarator"@,
        "template_declaration"@ != "identifier"@,
        "template_declaration"@ != "type_definition"@,
        "template_declaration"@ != "alias_declaration"@,
        "template_declaration"@ != "preproc_def"@,
        "template_declaration"@ != "preproc_function_def"@,
        "template_declaration"@ != "field_declaration"@,
        "function_definition"@ != "preproc_if"@,
        "function_definition"@ != "preproc_ifdef"@,
        "function_definition"@ != "preproc_else"@,
        "function_definition"@ != "preproc_elif"@,
        "function_definition"@ != "preproc_elifdef"@,
        "function_definition"@ != "linkage_specification"@,
        "function_definition"@ != "declaration_list"@,
        "function_definition"@ != "class_specifier"@,
        "function_definition"@ != "struct_specifier"@,
        "function_definition"@ != "union_specifier"@,
        "function_definition"@ != "enum_specifier"@,
        "function_definition"@ != "declaration"@,
        "function_definition"@ != "function_declarator"@,
        "function_definition"@ != "identifier"@,
        "function_definition"@ != "type_definition"@,
        "function_definition"@ != "alias_declaration"@,
        "function_definition"@ != "preproc_def"@,
        "function_definition"@ != "preproc_function_def"@,
        "function_definition"@ != "field_declaration"@,
        "class_specifier"@ != "preproc_if"@,
        "class_specifier"@ != "preproc_ifdef"@,
        "class_specifier"@ != "preproc_else"@,
        "class_specifier"@ != "preproc_elif"@,
        "class_specifier"@ != "preproc_elifdef"@,
        "class_specifier"@ != "linkage_specification"@,
        "class_specifier"@ != "declaration_list"@,
        "class_specifier"@ != "struct_specifier"@,
        "class_specifier"@ != "union_specifier"@,
        "class_specifier"@ != "enum_specifier"@,
        "class_specifier"@ != "declaration"@,
        "class_specifier"@ != "function_declarator"@,
        "class_specifier"@ != "identifier"@,
        "class_specifier"@ != "type_definition"@,
        "class_specifier"@ != "alias_declaration"@,
        "class_specifier"@ != "preproc_def"@,
        "class_specifier"@ != "preproc_function_def"@,
        "class_specifier"@ != "field_declaration"@,
        "struct_specifier"@ != "preproc_if"@,
        "struct_specifier"@ != "preproc_ifdef"@,
        "struct_specifier"@ != "preproc_else"@,
        "struct_specifier"@ != "preproc_elif"@,
        "struct_specifier"@ != "preproc_elifdef"@,
        "struct_specifier"@ != "linkage_specification"@,
        "struct_specifier"@ != "declaration_list"@,
        "struct_specifier"@ != "union_specifier"@,
        "struct_specifier"@ != "enum_specifier"@,
        "struct_specifier"@ != "declaration"@,
        "struct_specifier"@ != "function_declarator"@,
        "struct_specifier"@ != "identifier"@,
        "struct_specifier"@ != "type_definition"@,
        "struct_specifier"@ != "alias_declaration"@,
        "struct_specifier"@ != "preproc_def"@,
        "struct_specifier"@ != "preproc_function_def"@,
        "struct_specifier"@ != "field_declaration"@,
        "union_specifier"@ != "preproc_if"@,
        "union_specifier"@ != "preproc_ifdef"@,
        "union_specifier"@ != "preproc_else"@,
        "union_specifier"@ != "preproc_elif"@,
        "union_specifier"@ != "preproc_elifdef"@,
        "union_specifier"@ != "linkage_specification"@,
        "union_specifier"@ != "declaration_list"@,
        "union_specifier"@ != "enum_specifier"@,
        "union_specifier"@ != "declaration"@,
        "union_specifier"@ != "function_declarator"@,
        "union_specifier"@ != "identifier"@,
        "union_specifier"@ != "type_definition"@,
        "union_specifier"@ != "alias_declaration"@,
        "union_specifier"@ != "preproc_def"@,
        "union_specifier"@ != "preproc_function_def"@,
        "union_specifier"@ != "field_declaration"@,
        "enum_specifier"@ != "preproc_if"@,
        "enum_specifier"@ != "preproc_ifdef"@,
        "enum_specifier"@ != "preproc_else"@,
        "enum_specifier"@ != "preproc_elif"@,
        "enum_specifier"@ != "preproc_elifdef"@,
        "enum_specifier"@ != "linkage_specification"@,
        "enum_specifier"@ != "declaration_list"@,
        "enum_specifier"@ != "declaration"@,
        "enum_specifier"@ != "function_declarator"@,
        "enum_specifier"@ != "identifier"@,
        "enum_specifier"@ != "type_definition"@,
        "enum_specifier"@ != "alias_declaration"@,
        "enum_specifier"@ != "preproc_def"@,
        "enum_specifier"@ != "preproc_function_def"@,
        "enum_specifier"@ != "field_declaration"@,
        "declaration"@ != "preproc_if"@,
        "declaration"@ != "preproc_ifdef"@,
        "declaration"@ != "preproc_else"@,
        "declaration"@ != "preproc_elif"@,
        "declaration"@ != "preproc_elifdef"@,
        "declaration"@ != "linkage_specification"@,
        "declaration"@ != "declaration_list"@,
        "declaration"@ != "function_declarator"@,
        "declaration"@ != "identifier"@,
        "declaration"@ != "type_definition"@,
        "declaration"@ != "alias_declaration"@,
        "declaration"@ != "preproc_def"@,
        "declaration"@ != "preproc_function_def"@,
        "declaration"@ != "field_declaration"@,
        "function_declarator"@ != "preproc_if"@,
        "function_declarator"@ != "preproc_ifdef"@,
        "function_declarator"@ != "preproc_else"@,
        "function_declarator"@ != "preproc_elif"@,
        "function_declarator"@ != "preproc_elifdef"@,
        "function_declarator"@ != "linkage_specification"@,
        "function_declarator"@ != "declaration_list"@,
        "function_declarator"@ != "identifier"@,
        "function_declarator"@ != "type_definition"@,
        "function_declarator"@ != "alias_declaration"@,
        "function_declarator"@ != "preproc_def"@,
        "function_declarator"@ != "preproc_function_def"@,
        "function_declarator"@ != "field_declaration"@,
        "identifier"@ != "preproc_if"@,
        "identifier"@ != "preproc_ifdef"@,
        "identifier"@ != "preproc_else"@,
        "identifier"@ != "preproc_elif"@,
        "identifier"@ != "preproc_elifdef"@,
        "identifier"@ != "linkage_specification"@,
        "identifier"@ != "declaration_list"@,
        "identifier"@ != "type_definition"@,
        "identifier"@ != "alias_declaration"@,
        "identifier"@ != "preproc_def"@,
        "identifier"@ != "preproc_function_def"@,
        "identifier"@ != "field_declaration"@,
        "type_definition"@ != "preproc_if"@,
        "type_definition"@ != "preproc_ifdef"@,
        "type_definition"@ != "preproc_else"@,
        "type_definition"@ != "preproc_elif"@,
        "type_definition"@ != "preproc_elifdef"@,
        "type_definition"@ != "linkage_specification"@,
        "type_definition"@ != "declaration_list"@,
        "type_definition"@ != "alias_declaration"@,
        "type_definition"@ != "preproc_def"@,
        "type_definition"@ != "preproc_function_def"@,
        "type_definition"@ != "field_declaration"@,
        "alias_declaration"@ != "preproc_if"@,
        "alias_declaration"@ != "preproc_ifdef"@,
        "alias_declaration"@ != "preproc_else"@,
        "alias_declaration"@ != "preproc_elif"@,
        "alias_declaration"@ != "preproc_elifdef"@,
        "alias_declaration"@ != "linkage_specification"@,
        "alias_declaration"@ != "declaration_list"@,
        "alias_declaration"@ != "preproc_def"@,
        "alias_declaration"@ != "preproc_function_def"@,
        "alias_declaration"@ != "field_declaration"@,
        "preproc_def"@ != "preproc_if"@,
        "preproc_def"@ != "preproc_ifdef"@,
        "preproc_def"@ != "preproc_else"@,
        "preproc_def"@ != "preproc_elif"@,
        "preproc_def"@ != "preproc_elifdef"@,
        "preproc_def"@ != "linkage_specification"@,
        "preproc_def"@ != "declaration_list"@,
        "preproc_def"@ != "preproc_function_def"@,
        "preproc_def"@ != "field_declaration"@,
        "preproc_function_def"@ != "preproc_if"@,
        "preproc_function_def"@ != "preproc_ifdef"@,
        "preproc_function_def"@ != "preproc_else"@,
        "preproc_function_def"@ != "preproc_elif"@,
        "preproc_function_def"@ != "preproc_elifdef"@,
        "preproc_function_def"@ != "linkage_specification"@,
        "preproc_function_def"@ != "declaration_list"@,
        "preproc_function_def"@ != "field_declaration"@,
        "field_declaration"@ != "preproc_if"@,
        "field_declaration"@ != "preproc_ifdef"@,
        "field_declaration"@ != "preproc_else"@,
        "field_declaration"@ != "preproc_elif"@,
        "field_declaration"@ != "preproc_elifdef"@,
        "field_declaration"@ != "linkage_specification"@,
        "field_declaration"@ != "declaration_list"@,
{
    reveal_strlit("namespace_definition");
    reveal_strlit("preproc_if");
    reveal_strlit("preproc_ifdef");
    reveal_strlit("preproc_else");
    reveal_strlit("preproc_elif");
    reveal_strlit("preproc_elifdef");
    reveal_strlit("linkage_specification");
    reveal_strlit("declaration_list");
    reveal_strlit("template_declaration");
    reveal_strlit("function_definition");
    reveal_strlit("class_specifier");
    reveal_strlit("struct_specifier");
    reveal_strlit("union_specifier");
    reveal_strlit("enum_specifier");
    reveal_strlit("declaration");
    reveal_strlit("function_declarator");
    reveal_strlit("identifier");
    reveal_strlit("type_definition");
    reveal_strlit("alias_declaration");
    reveal_strlit("preproc_def");
    reveal_strlit("preproc_function_def");
    reveal_strlit("field_declaration");
    assert("namespace_definition"@.len() != "preproc_if"@.len());
    assert("namespace_definition"@.len() != "preproc_ifdef"@.len());
    assert("namespace_definition"@.len() != "preproc_else"@.len());
    assert("namespace_definition"@.len() != "preproc_elif"@.len());
    assert("namespace_definition"@.len() != "preproc_elifdef"@.len());
    assert("namespace_definition"@.len() != "linkage_specification"@.len());
    assert("namespace_definition"@.len() != "declaration_list"@.len());
    assert("namespace_definition"@[0] != "template_declaration"@[0]);
    assert("namespace_definition"@.len() != "function_definition"@.len());
    assert("namespace_definition"@.len() != "class_specifier"@.len());
    assert("namespace_definition"@.len() != "struct_specifier"@.len());
    assert("namespace_definition"@.len() != "union_specifier"@.len());
    assert("namespace_definition"@.len() != "enum_specifier"@.len());
    assert("namespace_definition"@.len() != "declaration"@.len());
    assert("namespace_definition"@.len() != "function_declarator"@.len());
    assert("namespace_definition"@.len() != "identifier"@.len());
    assert("namespace_definition"@.len() != "type_definition"@.len());
    assert("namespace_definition"@.len() != "alias_declaration"@.len());
    assert("namespace_definition"@.len() != "preproc_def"@.len());
    assert("namespace_definition"@[0] != "preproc_function_def"@[0]);
    assert("namespace_definition"@.len() != "field_declaration"@.len());
    assert("template_declaration"@.len() != "preproc_if"@.len());
    assert("template_declaration"@.len() != "preproc_ifdef"@.len());
    assert("template_declaration"@.len() != "preproc_else"@.len());
    assert("template_declaration"@.len() != "preproc_elif"@.len());
    assert("template_declaration"@.len() != "preproc_elifdef"@.len());
    assert("template_declaration"@.len() != "linkage_specification"@.len());
    assert("template_declaration"@.len() != "declaration_list"@.len());
    assert("template_declaration"@.len() != "function_definition"@.len());
    assert("template_declaration"@.len() != "class_specifier"@.len());
    assert("template_declaration"@.len() != "struct_specifier"@.len());
    assert("template_declaration"@.len() != "union_specifier"@.len());
    assert("template_declaration"@.len() != "enum_specifier"@.len());
    assert("template_declaration"@.len() != "declaration"@.len());
    assert("template_declaration"@.len() != "function_declarator"@.len());
    assert("template_declaration"@.len() != "identifier"@.len());
    assert("template_declaration"@.len() != "type_definition"@.len());
    assert("template_declaration"@.len() != "alias_declaration"@.len());
    assert("template_declaration"@.len() != "preproc_def"@.len());
    assert("template_declaration"@[0] != "preproc_function_def"@[0]);
    assert("template_declaration"@.len() != "field_declaration"@.len());
    assert("function_definition"@.len() != "preproc_if"@.len());
    assert("function_definition"@.len() != "preproc_ifdef"@.len());
    assert("function_definition"@.len() != "preproc_else"@.len());
    assert("function_definition"@.len() != "preproc_elif"@.len());
    assert("function_definition"@.len() != "preproc_elifdef"@.len());
    assert("function_definition"@.len() != "linkage_specification"@.len());
    assert("function_definition"@.len() != "declaration_list"@.len());
    assert("function_definition"@.len() != "class_specifier"@.len());
    assert("function_definition"@.len() != "struct_specifier"@.len());
    assert("function_definition"@.len() != "union_specifier"@.len());
    assert("function_definition"@.len() != "enum_specifier"@.len());
    assert("function_definition"@.len() != "declaration"@.len());
    assert("function_definition"@[11] != "function_declarator"@[11]);
    assert("function_definition"@.len() != "identifier"@.len());
    assert("function_definition"@.len() != "type_definition"@.len());
    assert("function_definition"@.len() != "alias_declaration"@.len());
    assert("function_definition"@.len() != "preproc_def"@.len());
    assert("function_definition"@.len() != "preproc_function_def"@.len());
    assert("function_definition"@.len() != "field_declaration"@.len());
    assert("class_specifier"@.len() != "preproc_if"@.len());
    assert("class_specifier"@.len() != "preproc_ifdef"@.len());
    assert("class_specifier"@.len() != "preproc_else"@.len());
    assert("class_specifier"@.len() != "preproc_elif"@.len());
    assert("class_specifier"@[0] != "preproc_elifdef"@[0]);
    assert("class_specifier"@.len() != "linkage_specification"@.len());
    assert("class_specifier"@.len() != "declaration_list"@.len());
    assert("class_specifier"@.len() != "struct_specifier"@.len());
    assert("class_specifier"@[0] != "union_specifier"@[0]);
    assert("class_specifier"@.len() != "enum_specifier"@.len());
    assert("class_specifier"@.len() != "declaration"@.len());
    assert("class_specifier"@.len() != "function_declarator"@.len());
    assert("class_specifier"@.len() != "identifier"@.len());
    assert("class_specifier"@[0] != "type_definition"@[0]);
    assert("class_specifier"@.len() != "alias_declaration"@.len());
    assert("class_specifier"@.len() != "preproc_def"@.len());
    assert("class_specifier"@.len() != "preproc_function_def"@.len());
    assert("class_specifier"@.len() != "field_declaration"@.len());
    assert("struct_specifier"@.len() != "preproc_if"@.len());
    assert("struct_specifier"@.len() != "preproc_ifdef"@.len());
    assert("struct_specifier"@.len() != "preproc_else"@.len());
    assert("struct_specifier"@.len() != "preproc_elif"@.len());
    assert("struct_specifier"@.len() != "preproc_elifdef"@.len());
    assert("struct_specifier"@.len() != "linkage_specification"@.len());
    assert("struct_specifier"@[0] != "declaration_list"@[0]);
    assert("struct_specifier"@.len() != "union_specifier"@.len());
    assert("struct_specifier"@.len() != "enum_specifier"@.len());
    assert("struct_specifier"@.len() != "declaration"@.len());
    assert("struct_specifier"@.len() != "function_declarator"@.len());
    assert("struct_specifier"@.len() != "identifier"@.len());
    assert("struct_specifier"@.len() != "type_definition"@.len());
    assert("struct_specifier"@.len() != "alias_declaration"@.len());
    assert("struct_specifier"@.len() != "preproc_def"@.len());
    assert("struct_specifier"@.len() != "preproc_function_def"@.len());
    assert("struct_specifier"@.len() != "field_declaration"@.len());
    assert("union_specifier"@.len() != "preproc_if"@.len());
    assert("union_specifier"@.len() != "preproc_ifdef"@.len());
    assert("union_specifier"@.len() != "preproc_else"@.len());
    assert("union_specifier"@.len() != "preproc_elif"@.len());
    assert("union_specifier"@[0] != "preproc_elifdef"@[0]);
    assert("union_specifier"@.len() != "linkage_specification"@.len());
    assert("union_specifier"@.len() != "declaration_list"@.len());
    assert("union_specifier"@.len() != "enum_specifier"@.len());
    assert("union_specifier"@.len() != "declaration"@.len());
    assert("union_specifier"@.len() != "function_declarator"@.len());
    assert("union_specifier"@.len() != "identifier"@.len());
    assert("union_specifier"@[0] != "type_definition"@[0]);
    assert("union_specifier"@.len() != "alias_declaration"@.len());
    assert("union_specifier"@.len() != "preproc_def"@.len());
    assert("union_specifier"@.len() != "preproc_function_def"@.len());
    assert("union_specifier"@.len() != "field_declaration"@.len());
    assert("enum_specifier"@.len() != "preproc_if"@.len());
    assert("enum_specifier"@.len() != "preproc_ifdef"@.len());
    assert("enum_specifier"@.len() != "preproc_else"@.len());
    assert("enum_specifier"@.len() != "preproc_elif"@.len());
    assert("enum_specifier"@.len() != "preproc_elifdef"@.len());
    assert("enum_specifier"@.len() != "linkage_specification"@.len());
    assert("enum_specifier"@.len() != "declaration_list"@.len());
    assert("enum_specifier"@.len() != "declaration"@.len());
    assert("enum_specifier"@.len() != "function_declarator"@.len());
    assert("enum_specifier"@.len() != "identifier"@.len());
    assert("enum_specifier"@.len() != "type_definition"@.len());
    assert("enum_specifier"@.len() != "alias_declaration"@.len());
    assert("enum_specifier"@.len() != "preproc_def"@.len());
    assert("enum_specifier"@.len() != "preproc_function_def"@.len());
    assert("enum_specifier"@.len() != "field_declaration"@.len());
    assert("declaration"@.len() != "preproc_if"@.len());
    assert("declaration"@.len() != "preproc_ifdef"@.len());
    assert("declaration"@.len() != "preproc_else"@.len());
    assert("declaration"@.len() != "preproc_elif"@.len());
    assert("declaration"@.len() != "preproc_elifdef"@.len());
    assert("declaration"@.len() != "linkage_specification"@.len());
    assert("declaration"@.len() != "declaration_list"@.len());
    assert("declaration"@.len() != "function_declarator"@.len());
    assert("declaration"@.len() != "identifier"@.len());
    assert("declaration"@.len() != "type_definition"@.len());
    assert("declaration"@.len() != "alias_declaration"@.len());
    assert("declaration"@[0] != "preproc_def"@[0]);
    assert("declaration"@.len() != "preproc_function_def"@.len());
    assert("declaration"@.len() != "field_declaration"@.len());
    assert("function_declarator"@.len() != "preproc_if"@.len());
    assert("function_declarator"@.len() != "preproc_ifdef"@.len());
    assert("function_declarator"@.len() != "preproc_else"@.len());
    assert("function_declarator"@.len() != "preproc_elif"@.len());
    assert("function_declarator"@.len() != "preproc_elifdef"@.len());
    assert("function_declarator"@.len() != "linkage_specification"@.len());
    assert("function_declarator"@.len() != "declaration_list"@.len());
    assert("function_declarator"@.len() != "identifier"@.len());
    assert("function_declarator"@.len() != "type_definition"@.len());
    assert("function_declarator"@.len() != "alias_declaration"@.len());
    assert("function_declarator"@.len() != "preproc_def"@.len());
    assert("function_declarator"@.len() != "preproc_function_def"@.len());
    assert("function_declarator"@.len() != "field_declaration"@.len());
    assert("identifier"@[0] != "preproc_if"@[0]);
    assert("identifier"@.len() != "preproc_ifdef"@.len());
    assert("identifier"@.len() != "preproc_else"@.len());
    assert("identifier"@.len() != "preproc_elif"@.len());
    assert("identifier"@.len() != "preproc_elifdef"@.len());
    assert("identifier"@.len() != "linkage_specification"@.len());
    assert("identifier"@.len() != "declaration_list"@.len());
    assert("identifier"@.len() != "type_definition"@.len());
    assert("identifier"@.len() != "alias_declaration"@.len());
    assert("identifier"@.len() != "preproc_def"@.len());
    assert("identifier"@.len() != "preproc_function_def"@.len());
    assert("identifier"@.len() != "field_declaration"@.len());
    assert("type_definition"@.len() != "preproc_if"@.len());
    assert("type_definition"@.len() != "preproc_ifdef"@.len());
    assert("type_definition"@.len() != "preproc_else"@.len());
    assert("type_definition"@.len() != "preproc_elif"@.len());
    assert("type_definition"@[0] != "preproc_elifdef"@[0]);
    assert("type_definition"@.len() != "linkage_specification"@.len());
    assert("type_definition"@.len() != "declaration_list"@.len());
    assert("type_definition"@.len() != "alias_declaration"@.len());
    assert("type_definition"@.len() != "preproc_def"@.len());
    assert("type_definition"@.len() != "preproc_function_def"@.len());
    assert("type_definition"@.len() != "field_declaration"@.len());
    assert("alias_declaration"@.len() != "preproc_if"@.len());
    assert("alias_declaration"@.len() != "preproc_ifdef"@.len());
    assert("alias_declaration"@.len() != "preproc_else"@.len());
    assert("alias_declaration"@.len() != "preproc_elif"@.len());
    assert("alias_declaration"@.len() != "preproc_elifdef"@.len());
    assert("alias_declaration"@.len() != "linkage_specification"@.len());
    assert("alias_declaration"@.len() != "declaration_list"@.len());
    assert("alias_declaration"@.len() != "preproc_def"@.len());
    assert("alias_declaration"@.len() != "preproc_function_def"@.len());
    assert("alias_declaration"@[0] != "field_declaration"@[0]);
    assert("preproc_def"@.len() != "preproc_if"@.len());
    assert("preproc_def"@.len() != "preproc_ifdef"@.len());
    assert("preproc_def"@.len() != "preproc_else"@.len());
    assert("preproc_def"@.len() != "preproc_elif"@.len());
    assert("preproc_def"@.len() != "preproc_elifdef"@.len());
    assert("preproc_def"@.len() != "linkage_specification"@.len());
    assert("preproc_def"@.len() != "declaration_list"@.len());
    assert("preproc_def"@.len() != "preproc_function_def"@.len());
    assert("preproc_def"@.len() != "field_declaration"@.len());
    assert("preproc_function_def"@.len() != "preproc_if"@.len());
    assert("preproc_function_def"@.len() != "preproc_ifdef"@.len());
    assert("preproc_function_def"@.len() != "preproc_else"@.len());
    assert("preproc_function_def"@.len() != "preproc_elif"@.len());
    assert("preproc_function_def"@.len() != "preproc_elifdef"@.len());
    assert("preproc_function_def"@.len() != "linkage_specification"@.len());
    assert("preproc_function_def"@.len() != "declaration_list"@.len());
    assert("preproc_function_def"@.len() != "field_declaration"@.len());
    assert("field_declaration"@.len() != "preproc_if"@.len());
    assert("field_declaration"@.len() != "preproc_ifdef"@.len());
    assert("field_declaration"@.len() != "preproc_else"@.len());
    assert("field_declaration"@.len() != "preproc_elif"@.len());
    assert("field_declaration"@.len() != "preproc_elifdef"@.len());
    assert("field_declaration"@.len() != "linkage_specification"@.len());
    assert("field_declaration"@.len() != "declaration_list"@.len());
}

proof fn is_name_kinds()
    ensures
        "function_declarator"@ != "identifier"@,
        "function_declarator"@ != "type_identifier"@,
        "function_declarator"@ != "field_identifier"@,
        "function_declarator"@ != "destructor_name"@,
        "function_declarator"@ != "operator_name"@,
        "pointer_declarator"@ != "identifier"@,
        "pointer_declarator"@ != "type_identifier"@,
        "pointer_declarator"@ != "field_identifier"@,
        "pointer_declarator"@ != "destructor_name"@,
        "pointer_declarator"@ != "operator_name"@,
        "array_declarator"@ != "identifier"@,
        "array_declarator"@ != "type_identifier"@,
        "array_declarator"@ != "field_identifier"@,
        "array_declarator"@ != "destructor_name"@,
        "array_declarator"@ != "operator_name"@,
        "init_declarator"@ != "identifier"@,
        "init_declarator"@ != "type_identifier"@,
        "init_declarator"@ != "field_identifier"@,
        "init_declarator"@ != "destructor_name"@,
        "init_declarator"@ != "operator_name"@,
        "attributed_declarator"@ != "identifier"@,
        "attributed_declarator"@ != "type_identifier"@,
        "attributed_declarator"@ != "field_identifier"@,
        "attributed_declarator"@ != "destructor_name"@,
        "attributed_declarator"@ != "operator_name"@,
        "parenthesized_declarator"@ != "identifier"@,
        "parenthesized_declarator"@ != "type_identifier"@,
        "parenthesized_declarator"@ != "field_identifier"@,
        "parenthesized_declarator"@ != "destructor_name"@,
        "parenthesized_declarator"@ != "operator_name"@,
        "reference_declarator"@ != "identifier"@,
        "reference_declarator"@ != "type_identifier"@,
        "reference_declarator"@ != "field_identifier"@,
        "reference_declarator"@ != "destructor_name"@,
        "reference_declarator"@ != "operator_name"@,
        "variadic_declarator"@ != "identifier"@,
        "variadic_declarator"@ != "type_identifier"@,
        "variadic_declarator"@ != "field_identifier"@,
        "variadic_declarator"@ != "destructor_name"@,
        "variadic_declarator"@ != "operator_name"@,
        "qualified_identifier"@ != "identifier"@,
        "qualified_identifier"@ != "type_identifier"@,
        "qualified_identifier"@ != "field_identifier"@,
        "qualified_identifier"@ != "destructor_name"@,
        "qualified_identifier"@ != "operator_name"@,
        "("@ != "identifier"@,
        "("@ != "type_identifier"@,
        "("@ != "field_identifier"@,
        "("@ != "destructor_name"@,
        "("@ != "operator_name"@,
        "&"@ != "identifier"@,
        "&"@ != "type_identifier"@,
        "&"@ != "field_identifier"@,
        "&"@ != "destructor_name"@,
        "&"@ != "operator_name"@,
        "&&"@ != "identifier"@,
        "&&"@ != "type_identifier"@,
        "&&"@ != "field_identifier"@,
        "&&"@ != "destructor_name"@,
        "&&"@ != "operator_name"@,
        "..."@ != "identifier"@,
        "..."@ != "type_identifier"@,
        "..."@ != "field_identifier"@,
        "..."@ != "destructor_name"@,
        "..."@ != "operator_name"@,
        "identifier"@ != "type_identifier"@,
        "identifier"@ != "field_identifier"@,
        "identifier"@ != "destructor_name"@,
        "identifier"@ != "operator_name"@,
        "type_identifier"@ != "field_identifier"@,
        "type_identifier"@ != "destructor_name"@,
        "type_identifier"@ != "operator_name"@,
        "field_identifier"@ != "destructor_name"@,
        "field_identifier"@ != "operator_name"@,
        "destructor_name"@ != "operator_name"@,
        "function_definition"@ != "identifier"@,
        "function_definition"@ != "type_identifier"@,
        "function_definition"@ != "field_identifier"@,
        "function_definition"@ != "destructor_name"@,
        "function_definition"@ != "operator_name"@,
{
    reveal_strlit("function_declarator");
    reveal_strlit("identifier");
    reveal_strlit("type_identifier");
    reveal_strlit("field_identifier");
    reveal_strlit("destructor_name");
    reveal_strlit("operator_name");
    reveal_strlit("pointer_declarator");
    reveal_strlit("array_declarator");
    reveal_strlit("init_declarator");
    reveal_strlit("attributed_declarator");
    reveal_strlit("parenthesized_declarator");
    reveal_strlit("reference_declarator");
    reveal_strlit("variadic_declarator");
    reveal_strlit("qualified_identifier");
    reveal_strlit("(");
    reveal_strlit("&");
    reveal_strlit("&&");
    reveal_strlit("...");
    reveal_strlit("function_definition");
    assert("function_declarator"@.len() != "identifier"@.len());
    assert("function_declarator"@.len() != "type_identifier"@.len());
    assert("function_declarator"@.len() != "field_identifier"@.len());
    assert("function_declarator"@.len() != "destructor_name"@.len());
    assert("function_declarator"@.len() != "operator_name"@.len());
    assert("pointer_declarator"@.len() != "identifier"@.len());
    assert("pointer_declarator"@.len() != "type_identifier"@.len());
    assert("pointer_declarator"@.len() != "field_identifier"@.len());
    assert("pointer_declarator"@.len() != "destructor_name"@.len());
    assert("pointer_declarator"@.len() != "operator_name"@.len());
    assert("array_declarator"@.len() != "identifier"@.len());
    assert("array_declarator"@.len() != "type_identifier"@.len());
    assert("array_declarator"@[0] != "field_identifier"@[0]);
    assert("array_declarator"@.len() != "destructor_name"@.len());
    assert("array_declarator"@.len() != "operator_name"@.len());
    assert("init_declarator"@.len() != "identifier"@.len());
    assert("init_declarator"@[0] != "type_identifier"@[0]);
    assert("init_declarator"@.len() != "field_identifier"@.len());
    assert("init_declarator"@[0] != "destructor_name"@[0]);
    assert("init_declarator"@.len() != "operator_name"@.len());
    assert("attributed_declarator"@.len() != "identifier"@.len());
    assert("attributed_declarator"@.len() != "type_identifier"@.len());
    assert("attributed_declarator"@.len() != "field_identifier"@.len());
    assert("attributed_declarator"@.len() != "destructor_name"@.len());
    assert("attributed_declarator"@.len() != "operator_name"@.len());
    assert("parenthesized_declarator"@.len() != "identifier"@.len());
    assert("parenthesized_declarator"@.len() != "type_identifier"@.len());
    assert("parenthesized_declarator"@.len() != "field_identifier"@.len());
    assert("parenthesized_declarator"@.len() != "destructor_name"@.len());
    assert("parenthesized_declarator"@.len() != "operator_name"@.len());
    assert("reference_declarator"@.len() != "identifier"@.len());
    assert("reference_declarator"@.len() != "type_identifier"@.len());
    assert("reference_declarator"@.len() != "field_identifier"@.len());
    assert("reference_declarator"@.len() != "destructor_name"@.len());
    assert("reference_declarator"@.len() != "operator_name"@.len());
    assert("variadic_declarator"@.len() != "identifier"@.len());
    assert("variadic_declarator"@.len() != "type_identifier"@.len());
    assert("variadic_declarator"@.len() != "field_identifier"@.len());
    assert("variadic_declarator"@.len() != "destructor_name"@.len());
    assert("variadic_declarator"@.len() != "operator_name"@.len());
    assert("qualified_identifier"@.len() != "identifier"@.len());
    assert("qualified_identifier"@.len() != "type_identifier"@.len());
    assert("qualified_identifier"@.len() != "field_identifier"@.len());
    assert("qualified_identifier"@.len() != "destructor_name"@.len());
    assert("qualified_identifier"@.len() != "operator_name"@.len());
    assert("("@.len() != "identifier"@.len());
    assert("("@.len() != "type_identifier"@.len());
    assert("("@.len() != "field_identifier"@.len());
    assert("("@.len() != "destructor_name"@.len());
    assert("("@.len() != "operator_name"@.len());
    assert("&"@.len() != "identifier"@.len());
    assert("&"@.len() != "type_identifier"@.len());
    assert("&"@.len() != "field_identifier"@.len());
    assert("&"@.len() != "destructor_name"@.len());
    assert("&"@.len() != "operator_name"@.len());
    assert("&&"@.len() != "identifier"@.len());
    assert("&&"@.len() != "type_identifier"@.len());
    assert("&&"@.len() != "field_identifier"@.len());
    assert("&&"@.len() != "destructor_name"@.len());
    assert("&&"@.len() != "operator_name"@.len());
    assert("..."@.len() != "identifier"@.len());
    assert("..."@.len() != "type_identifier"@.len());
    assert("..."@.len() != "field_identifier"@.len());
    assert("..."@.len() != "destructor_name"@.len());
    assert("..."@.len() != "operator_name"@.len());
    assert("identifier"@.len() != "type_identifier"@.len());
    assert("identifier"@.len() != "field_identifier"@.len());
    assert("identifier"@.len() != "destructor_name"@.len());
    assert("identifier"@.len() != "operator_name"@.len());
    assert("type_identifier"@.len() != "field_identifier"@.len());
    assert("type_identifier"@[0] != "destructor_name"@[0]);
    assert("type_identifier"@.len() != "operator_name"@.len());
    assert("field_identifier"@.len() != "destructor_name"@.len());
    assert("field_identifier"@.len() != "operator_name"@.len());
    assert("destructor_name"@.len() != "operator_name"@.len());
    assert("function_definition"@.len() != "identifier"@.len());
    assert("function_definition"@.len() != "type_identifier"@.len());
    assert("function_definition"@.len() != "field_identifier"@.len());
    assert("function_definition"@.len() != "destructor_name"@.len());
    assert("function_definition"@.len() != "operator_name"@.len());
}

proof fn declared_kinds()
    ensures
        "function_declarator"@ != "qualified_identifier"@,
        "function_declarator"@ != "pointer_declarator"@,
        "function_declarator"@ != "array_declarator"@,
        "function_declarator"@ != "init_declarator"@,
        "function_declarator"@ != "attributed_declarator"@,
        "function_declarator"@ != "parenthesized_declarator"@,
        "function_declarator"@ != "reference_declarator"@,
        "function_declarator"@ != "variadic_declarator"@,
        "function_declarator"@ != "("@,
        "function_declarator"@ != "&"@,
        "function_declarator"@ != "&&"@,
        "function_declarator"@ != "..."@,
        "function_declarator"@ != "identifier"@,
        "function_declarator"@ != "type_identifier"@,
        "function_declarator"@ != "field_identifier"@,
        "function_declarator"@ != "destructor_name"@,
        "function_declarator"@ != "operator_name"@,
        "function_declarator"@ != "function_definition"@,
        "pointer_declarator"@ != "qualified_identifier"@,
        "pointer_declarator"@ != "array_declarator"@,
        "pointer_declarator"@ != "init_declarator"@,
        "pointer_declarator"@ != "attributed_declarator"@,
        "pointer_declarator"@ != "parenthesized_declarator"@,
        "pointer_declarator"@ != "reference_declarator"@,
        "pointer_declarator"@ != "variadic_declarator"@,
        "pointer_declarator"@ != "("@,
        "pointer_declarator"@ != "&"@,
        "pointer_declarator"@ != "&&"@,
        "pointer_declarator"@ != "..."@,
        "pointer_declarator"@ != "identifier"@,
        "pointer_declarator"@ != "type_identifier"@,
        "pointer_declarator"@ != "field_identifier"@,
        "pointer_declarator"@ != "destructor_name"@,
        "pointer_declarator"@ != "operator_name"@,
        "pointer_declarator"@ != "function_definition"@,
        "array_declarator"@ != "qualified_identifier"@,
        "array_declarator"@ != "init_declarator"@,
        "array_declarator"@ != "attributed_declarator"@,
        "array_declarator"@ != "parenthesized_declarator"@,
        "array_declarator"@ != "reference_declarator"@,
        "array_declarator"@ != "variadic_declarator"@,
        "array_declarator"@ != "("@,
        "array_declarator"@ != "&"@,
        "array_declarator"@ != "&&"@,
        "array_declarator"@ != "..."@,
        "array_declarator"@ != "identifier"@,
        "array_declarator"@ != "type_identifier"@,
        "array_declarator"@ != "field_identifier"@,
        "array_declarator"@ != "destructor_name"@,
        "array_declarator"@ != "operator_name"@,
        "array_declarator"@ != "function_definition"@,
        "init_declarator"@ != "qualified_identifier"@,
        "init_declarator"@ != "attributed_declarator"@,
        "init_declarator"@ != "parenthesized_declarator"@,
        "init_declarator"@ != "reference_declarator"@,
        "init_declarator"@ != "variadic_declarator"@,
        "init_declarator"@ != "("@,
        "init_declarator"@ != "&"@,
        "init_declarator"@ != "&&"@,
        "init_declarator"@ != "..."@,
        "init_declarator"@ != "identifier"@,
        "init_declarator"@ != "type_identifier"@,
        "init_declarator"@ != "field_identifier"@,
        "init_declarator"@ != "destructor_name"@,
        "init_declarator"@ != "operator_name"@,
        "init_declarator"@ != "function_definition"@,
        "attributed_declarator"@ != "qualified_identifier"@,
        "attributed_declarator"@ != "parenthesized_declarator"@,
        "attributed_declarator"@ != "reference_declarator"@,
        "attributed_declarator"@ != "variadic_declarator"@,
        "attributed_declarator"@ != "("@,
        "attributed_declarator"@ != "&"@,
        "attributed_declarator"@ != "&&"@,
        "attributed_declarator"@ != "..."@,
        "attributed_declarator"@ != "identifier"@,
        "attributed_declarator"@ != "type_identifier"@,
        "attributed_declarator"@ != "field_identifier"@,
        "attributed_declarator"@ != "destructor_name"@,
        "attributed_declarator"@ != "operator_name"@,
        "attributed_declarator"@ != "function_definition"@,
        "parenthesized_declarator"@ != "qualified_identifier"@,
        "parenthesized_declarator"@ != "reference_declarator"@,
        "parenthesized_declarator"@ != "variadic_declarator"@,
        "parenthesized_declarator"@ != "("@,
        "parenthesized_declarator"@ != "&"@,
        "parenthesized_declarator"@ != "&&"@,
        "parenthesized_declarator"@ != "..."@,
        "parenthesized_declarator"@ != "identifier"@,
        "parenthesized_declarator"@ != "type_identifier"@,
        "parenthesized_declarator"@ != "field_identifier"@,
        "parenthesized_declarator"@ != "destructor_name"@,
        "parenthesized_declarator"@ != "operator_name"@,
        "parenthesized_declarator"@ != "function_definition"@,
        "reference_declarator"@ != "qualified_identifier"@,
        "reference_declarator"@ != "variadic_declarator"@,
        "reference_declarator"@ != "("@,
        "reference_declarator"@ != "&"@,
        "reference_declarator"@ != "&&"@,
        "reference_declarator"@ != "..."@,
        "reference_declarator"@ != "identifier"@,
        "reference_declarator"@ != "type_identifier"@,
        "reference_declarator"@ != "field_identifier"@,
        "reference_declarator"@ != "destructor_name"@,
        "reference_declarator"@ != "operator_name"@,
        "reference_declarator"@ != "function_definition"@,
        "variadic_declarator"@ != "qualified_identifier"@,
        "variadic_declarator"@ != "("@,
        "variadic_declarator"@ != "&"@,
        "variadic_declarator"@ != "&&"@,
        "variadic_declarator"@ != "..."@,
        "variadic_declarator"@ != "identifier"@,
        "variadic_declarator"@ != "type_identifier"@,
        "variadic_declarator"@ != "field_identifier"@,
        "variadic_declarator"@ != "destructor_name"@,
        "variadic_declarator"@ != "operator_name"@,
        "variadic_declarator"@ != "function_definition"@,
        "qualified_identifier"@ != "("@,
        "qualified_identifier"@ != "&"@,
        "qualified_identifier"@ != "&&"@,
        "qualified_identifier"@ != "..."@,
        "qualified_identifier"@ != "identifier"@,
        "qualified_identifier"@ != "type_identifier"@,
        "qualified_identifier"@ != "field_identifier"@,
        "qualified_identifier"@ != "destructor_name"@,
        "qualified_identifier"@ != "operator_name"@,
        "qualified_identifier"@ != "function_definition"@,
        "("@ != "&"@,
        "("@ != "&&"@,
        "("@ != "..."@,
        "("@ != "identifier"@,
        "("@ != "type_identifier"@,
        "("@ != "field_identifier"@,
        "("@ != "destructor_name"@,
        "("@ != "operator_name"@,
        "("@ != "function_definition"@,
        "&"@ != "&&"@,
        "&"@ != "..."@,
        "&"@ != "identifier"@,
        "&"@ != "type_identifier"@,
        "&"@ != "field_identifier"@,
        "&"@ != "destructor_name"@,
        "&"@ != "operator_name"@,
        "&"@ != "function_definition"@,
        "&&"@ != "..."@,
        "&&"@ != "identifier"@,
        "&&"@ != "type_identifier"@,
        "&&"@ != "field_identifier"@,
        "&&"@ != "destructor_name"@,
        "&&"@ != "operator_name"@,
        "&&"@ != "function_definition"@,
        "..."@ != "identifier"@,
        "..."@ != "type_identifier"@,
        "..."@ != "field_identifier"@,
        "..."@ != "destructor_name"@,
        "..."@ != "operator_name"@,
        "..."@ != "function_definition"@,
        "identifier"@ != "type_identifier"@,
        "identifier"@ != "field_identifier"@,
        "identifier"@ != "destructor_name"@,
        "identifier"@ != "operator_name"@,
        "identifier"@ != "function_definition"@,
        "type_identifier"@ != "field_identifier"@,
        "type_identifier"@ != "destructor_name"@,
        "type_identifier"@ != "operator_name"@,
        "type_identifier"@ != "function_definition"@,
        "field_identifier"@ != "destructor_name"@,
        "field_identifier"@ != "operator_name"@,
        "field_identifier"@ != "function_definition"@,
        "destructor_name"@ != "operator_name"@,
        "destructor_name"@ != "function_definition"@,
        "operator_name"@ != "function_definition"@,
{
    reveal_strlit("function_declarator");
    reveal_strlit("qualified_identifier");
    reveal_strlit("pointer_declarator");
    reveal_strlit("array_declarator");
    reveal_strlit("init_declarator");
    reveal_strlit("attributed_declarator");
    reveal_strlit("parenthesized_declarator");
    reveal_strlit("reference_declarator");
    reveal_strlit("variadic_declarator");
    reveal_strlit("(");
    reveal_strlit("&");
    reveal_strlit("&&");
    reveal_strlit("...");
    reveal_strlit("identifier");
    reveal_strlit("type_identifier");
    reveal_strlit("field_identifier");
    reveal_strlit("destructor_name");
    reveal_strlit("operator_name");
    reveal_strlit("function_definition");
    assert("function_declarator"@.len() != "qualified_identifier"@.len());
    assert("function_declarator"@.len() != "pointer_declarator"@.len());
    assert("function_declarator"@.len() != "array_declarator"@.len());
    assert("function_declarator"@.len() != "init_declarator"@.len());
    assert("function_declarator"@.len() != "attributed_declarator"@.len());
    assert("function_declarator"@.len() != "parenthesized_declarator"@.len());
    assert("function_declarator"@.len() != "reference_declarator"@.len());
    assert("function_declarator"@[0] != "variadic_declarator"@[0]);
    assert("function_declarator"@.len() != "("@.len());
    assert("function_declarator"@.len() != "&"@.len());
    assert("function_declarator"@.len() != "&&"@.len());
    assert("function_declarator"@.len() != "..."@.len());
    assert("function_declarator"@.len() != "identifier"@.len());
    assert("function_declarator"@.len() != "type_identifier"@.len());
    assert("function_declarator"@.len() != "field_identifier"@.len());
    assert("function_declarator"@.len() != "destructor_name"@.len());
    assert("function_declarator"@.len() != "operator_name"@.len());
    assert("function_declarator"@[11] != "function_definition"@[11]);
    assert("pointer_declarator"@.len() != "qualified_identifier"@.len());
    assert("pointer_declarator"@.len() != "array_declarator"@.len());
    assert("pointer_declarator"@.len() != "init_declarator"@.len());
    assert("pointer_declarator"@.len() != "attributed_declarator"@.len());
    assert("pointer_declarator"@.len() != "parenthesized_declarator"@.len());
    assert("pointer_declarator"@.len() != "reference_declarator"@.len());
    assert("pointer_declarator"@.len() != "variadic_declarator"@.len());
    assert("pointer_declarator"@.len() != "("@.len());
    assert("pointer_declarator"@.len() != "&"@.len());
    assert("pointer_declarator"@.len() != "&&"@.len());
    assert("pointer_declarator"@.len() != "..."@.len());
    assert("pointer_declarator"@.len() != "identifier"@.len());
    assert("pointer_declarator"@.len() != "type_identifier"@.len());
    assert("pointer_declarator"@.len() != "field_identifier"@.len());
    assert("pointer_declarator"@.len() != "destructor_name"@.len());
    assert("pointer_declarator"@.len() != "operator_name"@.len());
    assert("pointer_declarator"@.len() != "function_definition"@.len());
    assert("array_declarator"@.len() != "qualified_identifier"@.len());
    assert("array_declarator"@.len() != "init_declarator"@.len());
    assert("array_declarator"@.len() != "attributed_declarator"@.len());
    assert("array_declarator"@.len() != "parenthesized_declarator"@.len());
    assert("array_declarator"@.len() != "reference_declarator"@.len());
    assert("array_declarator"@.len() != "variadic_declarator"@.len());
    assert("array_declarator"@.len() != "("@.len());
    assert("array_declarator"@.len() != "&"@.len());
    assert("array_declarator"@.len() != "&&"@.len());
    assert("array_declarator"@.len() != "..."@.len());
    assert("array_declarator"@.len() != "identifier"@.len());
    assert("array_declarator"@.len() != "type_identifier"@.len());
    assert("array_declarator"@[0] != "field_identifier"@[0]);
    assert("array_declarator"@.len() != "destructor_name"@.len());
    assert("array_declarator"@.len() != "operator_name"@.len());
    assert("array_declarator"@.len() != "function_definition"@.len());
    assert("init_declarator"@.len() != "qualified_identifier"@.len());
    assert("init_declarator"@.len() != "attributed_declarator"@.len());
    assert("init_declarator"@.len() != "parenthesized_declarator"@.len());
    assert("init_declarator"@.len() != "reference_declarator"@.len());
    assert("init_declarator"@.len() != "variadic_declarator"@.len());
    assert("init_declarator"@.len() != "("@.len());
    assert("init_declarator"@.len() != "&"@.len());
    assert("init_declarator"@.len() != "&&"@.len());
    assert("init_declarator"@.len() != "..."@.len());
    assert("init_declarator"@.len() != "identifier"@.len());
    assert("init_declarator"@[0] != "type_identifier"@[0]);
    assert("init_declarator"@.len() != "field_identifier"@.len());
    assert("init_declarator"@[0] != "destructor_name"@[0]);
    assert("init_declarator"@.len() != "operator_name"@.len());
    assert("init_declarator"@.len() != "function_definition"@.len());
    assert("attributed_declarator"@.len() != "qualified_identifier"@.len());
    assert("attributed_declarator"@.len() != "parenthesized_declarator"@.len());
    assert("attributed_declarator"@.len() != "reference_declarator"@.len());
    assert("attributed_declarator"@.len() != "variadic_declarator"@.len());
    assert("attributed_declarator"@.len() != "("@.len());
    assert("attributed_declarator"@.len() != "&"@.len());
    assert("attributed_declarator"@.len() != "&&"@.len());
    assert("attributed_declarator"@.len() != "..."@.len());
    assert("attributed_declarator"@.len() != "identifier"@.len());
    assert("attributed_declarator"@.len() != "type_identifier"@.len());
    assert("attributed_declarator"@.len() != "field_identifier"@.len());
    assert("attributed_declarator"@.len() != "destructor_name"@.len());
    assert("attributed_declarator"@.len() != "operator_name"@.len());
    assert("attributed_declarator"@.len() != "function_definition"@.len());
    assert("parenthesized_declarator"@.len() != "qualified_identifier"@.len());
    assert("parenthesized_declarator"@.len() != "reference_declarator"@.len());
    assert("parenthesized_declarator"@.len() != "variadic_declarator"@.len());
    assert("parenthesized_declarator"@.len() != "("@.len());
    assert("parenthesized_declarator"@.len() != "&"@.len());
    assert("parenthesized_declarator"@.len() != "&&"@.len());
    assert("parenthesized_declarator"@.len() != "..."@.len());
    assert("parenthesized_declarator"@.len() != "identifier"@.len());
    assert("parenthesized_declarator"@.len() != "type_identifier"@.len());
    assert("parenthesized_declarator"@.len() != "field_identifier"@.len());
    assert("parenthesized_declarator"@.len() != "destructor_name"@.len());
    assert("parenthesized_declarator"@.len() != "operator_name"@.len());
    assert("parenthesized_declarator"@.len() != "function_definition"@.len());
    assert("reference_declarator"@[0] != "qualified_identifier"@[0]);
    assert("reference_declarator"@.len() != "variadic_declarator"@.len());
    assert("reference_declarator"@.len() != "("@.len());
    assert("reference_declarator"@.len() != "&"@.len());
    assert("reference_declarator"@.len() != "&&"@.len());
    assert("reference_declarator"@.len() != "..."@.len());
    assert("reference_declarator"@.len() != "identifier"@.len());
    assert("reference_declarator"@.len() != "type_identifier"@.len());
    assert("reference_declarator"@.len() != "field_identifier"@.len());
    assert("reference_declarator"@.len() != "destructor_name"@.len());
    assert("reference_declarator"@.len() != "operator_name"@.len());
    assert("reference_declarator"@.len() != "function_definition"@.len());
    assert("variadic_declarator"@.len() != "qualified_identifier"@.len());
    assert("variadic_declarator"@.len() != "("@.len());
    assert("variadic_declarator"@.len() != "&"@.len());
    assert("variadic_declarator"@.len() != "&&"@.len());
    assert("variadic_declarator"@.len() != "..."@.len());
    assert("variadic_declarator"@.len() != "identifier"@.len());
    assert("variadic_declarator"@.len() != "type_identifier"@.len());
    assert("variadic_declarator"@.len() != "field_identifier"@.len());
    assert("variadic_declarator"@.len() != "destructor_name"@.len());
    assert("variadic_declarator"@.len() != "operator_name"@.len());
    assert("variadic_declarator"@[0] != "function_definition"@[0]);
    assert("qualified_identifier"@.len() != "("@.len());
    assert("qualified_identifier"@.len() != "&"@.len());
    assert("qualified_identifier"@.len() != "&&"@.len());
    assert("qualified_identifier"@.len() != "..."@.len());
    assert("qualified_identifier"@.len() != "identifier"@.len());
    assert("qualified_identifier"@.len() != "type_identifier"@.len());
    assert("qualified_identifier"@.len() != "field_identifier"@.len());
    assert("qualified_identifier"@.len() != "destructor_name"@.len());
    assert("qualified_identifier"@.len() != "operator_name"@.len());
    assert("qualified_identifier"@.len() != "function_definition"@.len());
    assert("("@[0] != "&"@[0]);
    assert("("@.len() != "&&"@.len());
    assert("("@.len() != "..."@.len());
    assert("("@.len() != "identifier"@.len());
    assert("("@.len() != "type_identifier"@.len());
    assert("("@.len() != "field_identifier"@.len());
    assert("("@.len() != "destructor_name"@.len());
    assert("("@.len() != "operator_name"@.len());
    assert("("@.len() != "function_definition"@.len());
    assert("&"@.len() != "&&"@.len());
    assert("&"@.len() != "..."@.len());
    assert("&"@.len() != "identifier"@.len());
    assert("&"@.len() != "type_identifier"@.len());
    assert("&"@.len() != "field_identifier"@.len());
    assert("&"@.len() != "destructor_name"@.len());
    assert("&"@.len() != "operator_name"@.len());
    assert("&"@.len() != "function_definition"@.len());
    assert("&&"@.len() != "..."@.len());
    assert("&&"@.len() != "identifier"@.len());
    assert("&&"@.len() != "type_identifier"@.len());
    assert("&&"@.len() != "field_identifier"@.len());
    assert("&&"@.len() != "destructor_name"@.len());
    assert("&&"@.len() != "operator_name"@.len());
    assert("&&"@.len() != "function_definition"@.len());
    assert("..."@.len() != "identifier"@.len());
    assert("..."@.len() != "type_identifier"@.len());
    assert("..."@.len() != "field_identifier"@.len());
    assert("..."@.len() != "destructor_name"@.len());
    assert("..."@.len() != "operator_name"@.len());
    assert("..."@.len() != "function_definition"@.len());
    assert("identifier"@.len() != "type_identifier"@.len());
    assert("identifier"@.len() != "field_identifier"@.len());
    assert("identifier"@.len() != "destructor_name"@.len());
    assert("identifier"@.len() != "operator_name"@.len());
    assert("identifier"@.len() != "function_definition"@.len());
    assert("type_identifier"@.len() != "field_identifier"@.len());
    assert("type_identifier"@[0] != "destructor_name"@[0]);
    assert("type_identifier"@.len() != "operator_name"@.len());
    assert("type_identifier"@.len() != "function_definition"@.len());
    assert("field_identifier"@.len() != "destructor_name"@.len());
    assert("field_identifier"@.len() != "operator_name"@.len());
    assert("field_identifier"@.len() != "function_definition"@.len());
    assert("destructor_name"@.len() != "operator_name"@.len());
    assert("destructor_name"@.len() != "function_definition"@.len());
    assert("operator_name"@.len() != "function_definition"@.len());
}

proof fn aggregate_kind_kinds()
    ensures
        "function_definition"@ != "class_specifier"@,
        "function_definition"@ != "struct_specifier"@,
        "function_definition"@ != "union_specifier"@,
        "function_definition"@ != "enum_specifier"@,
        "function_definition"@ != "declaration"@,
        "function_definition"@ != "function_declarator"@,
        "function_definition"@ != "identifier"@,
        "function_definition"@ != "type_definition"@,
        "function_definition"@ != "alias_declaration"@,
        "function_definition"@ != "preproc_def"@,
        "function_definition"@ != "preproc_function_def"@,
        "function_definition"@ != "template_declaration"@,
        "function_definition"@ != "field_declaration"@,
        "class_specifier"@ != "struct_specifier"@,
        "class_specifier"@ != "union_specifier"@,
        "class_specifier"@ != "enum_specifier"@,
        "class_specifier"@ != "declaration"@,
        "class_specifier"@ != "function_declarator"@,
        "class_specifier"@ != "identifier"@,
        "class_specifier"@ != "type_definition"@,
        "class_specifier"@ != "alias_declaration"@,
        "class_specifier"@ != "preproc_def"@,
        "class_specifier"@ != "preproc_function_def"@,
        "class_specifier"@ != "template_declaration"@,
        "class_specifier"@ != "field_declaration"@,
        "struct_specifier"@ != "union_specifier"@,
        "struct_specifier"@ != "enum_specifier"@,
        "struct_specifier"@ != "declaration"@,
        "struct_specifier"@ != "function_declarator"@,
        "struct_specifier"@ != "identifier"@,
        "struct_specifier"@ != "type_definition"@,
        "struct_specifier"@ != "alias_declaration"@,
        "struct_specifier"@ != "preproc_def"@,
        "struct_specifier"@ != "preproc_function_def"@,
        "struct_specifier"@ != "template_declaration"@,
        "struct_specifier"@ != "field_declaration"@,
        "union_specifier"@ != "enum_specifier"@,
        "union_specifier"@ != "declaration"@,
        "union_specifier"@ != "function_declarator"@,
        "union_specifier"@ != "identifier"@,
        "union_specifier"@ != "type_definition"@,
        "union_specifier"@ != "alias_declaration"@,
        "union_specifier"@ != "preproc_def"@,
        "union_specifier"@ != "preproc_function_def"@,
        "union_specifier"@ != "template_declaration"@,
        "union_specifier"@ != "field_declaration"@,
        "enum_specifier"@ != "declaration"@,
        "enum_specifier"@ != "function_declarator"@,
        "enum_specifier"@ != "identifier"@,
        "enum_specifier"@ != "type_definition"@,
        "enum_specifier"@ != "alias_declaration"@,
        "enum_specifier"@ != "preproc_def"@,
        "enum_specifier"@ != "preproc_function_def"@,
        "enum_specifier"@ != "template_declaration"@,
        "enum_specifier"@ != "field_declaration"@,
        "declaration"@ != "function_declarator"@,
        "declaration"@ != "identifier"@,
        "declaration"@ != "type_definition"@,
        "declaration"@ != "alias_declaration"@,
        "declaration"@ != "preproc_def"@,
        "declaration"@ != "preproc_function_def"@,
        "declaration"@ != "template_declaration"@,
        "declaration"@ != "field_declaration"@,
        "function_declarator"@ != "identifier"@,
        "function_declarator"@ != "type_definition"@,
        "function_declarator"@ != "alias_declaration"@,
        "function_declarator"@ != "preproc_def"@,
        "function_declarator"@ != "preproc_function_def"@,
        "function_declarator"@ != "template_declaration"@,
        "function_declarator"@ != "field_declaration"@,
        "identifier"@ != "type_definition"@,
        "identifier"@ != "alias_declaration"@,
        "identifier"@ != "preproc_def"@,
        "identifier"@ != "preproc_function_def"@,
        "identifier"@ != "template_declaration"@,
        "identifier"@ != "field_declaration"@,
        "type_definition"@ != "alias_declaration"@,
        "type_definition"@ != "preproc_def"@,
        "type_definition"@ != "preproc_function_def"@,
        "type_definition"@ != "template_declaration"@,
        "type_definition"@ != "field_declaration"@,
        "alias_declaration"@ != "preproc_def"@,
        "alias_declaration"@ != "preproc_function_def"@,
        "alias_declaration"@ != "template_declaration"@,
        "alias_declaration"@ != "field_declaration"@,
        "preproc_def"@ != "preproc_function_def"@,
        "preproc_def"@ != "template_declaration"@,
        "preproc_def"@ != "field_declaration"@,
        "preproc_function_def"@ != "template_declaration"@,
        "preproc_function_def"@ != "field_declaration"@,
        "template_declaration"@ != "field_declaration"@,
{
    reveal_strlit("function_definition");
    reveal_strlit("class_specifier");
    reveal_strlit("struct_specifier");
    reveal_strlit("union_specifier");
    reveal_strlit("enum_specifier");
    reveal_strlit("declaration");
    reveal_strlit("function_declarator");
    reveal_strlit("identifier");
    reveal_strlit("type_definition");
    reveal_strlit("alias_declaration");
    reveal_strlit("preproc_def");
    reveal_strlit("preproc_function_def");
    reveal_strlit("template_declaration");
    reveal_strlit("field_declaration");
    assert("function_definition"@.len() != "class_specifier"@.len());
    assert("function_definition"@.len() != "struct_specifier"@.len());
    assert("function_definition"@.len() != "union_specifier"@.len());
    assert("function_definition"@.len() != "enum_specifier"@.len());
    assert("function_definition"@.len() != "declaration"@.len());
    assert("function_definition"@[11] != "function_declarator"@[11]);
    assert("function_definition"@.len() != "identifier"@.len());
    assert("function_definition"@.len() != "type_definition"@.len());
    assert("function_definition"@.len() != "alias_declaration"@.len());
    assert("function_definition"@.len() != "preproc_def"@.len());
    assert("function_definition"@.len() != "preproc_function_def"@.len());
    assert("function_definition"@.len() != "template_declaration"@.len());
    assert("function_definition"@.len() != "field_declaration"@.len());
    assert("class_specifier"@.len() != "struct_specifier"@.len());
    assert("class_specifier"@[0] != "union_specifier"@[0]);
    assert("class_specifier"@.len() != "enum_specifier"@.len());
    assert("class_specifier"@.len() != "declaration"@.len());
    assert("class_specifier"@.len() != "function_declarator"@.len());
    assert("class_specifier"@.len() != "identifier"@.len());
    assert("class_specifier"@[0] != "type_definition"@[0]);
    assert("class_specifier"@.len() != "alias_declaration"@.len());
    assert("class_specifier"@.len() != "preproc_def"@.len());
    assert("class_specifier"@.len() != "preproc_function_def"@.len());
    assert("class_specifier"@.len() != "template_declaration"@.len());
    assert("class_specifier"@.len() != "field_declaration"@.len());
    assert("struct_specifier"@.len() != "union_specifier"@.len());
    assert("struct_specifier"@.len() != "enum_specifier"@.len());
    assert("struct_specifier"@.len() != "declaration"@.len());
    assert("struct_specifier"@.len() != "function_declarator"@.len());
    assert("struct_specifier"@.len() != "identifier"@.len());
    assert("struct_specifier"@.len() != "type_definition"@.len());
    assert("struct_specifier"@.len() != "alias_declaration"@.len());
    assert("struct_specifier"@.len() != "preproc_def"@.len());
    assert("struct_specifier"@.len() != "preproc_function_def"@.len());
    assert("struct_specifier"@.len() != "template_declaration"@.len());
    assert("struct_specifier"@.len() != "field_declaration"@.len());
    assert("union_specifier"@.len() != "enum_specifier"@.len());
    assert("union_specifier"@.len() != "declaration"@.len());
    assert("union_specifier"@.len() != "function_declarator"@.len());
    assert("union_specifier"@.len() != "identifier"@.len());
    assert("union_specifier"@[0] != "type_definition"@[0]);
    assert("union_specifier"@.len() != "alias_declaration"@.len());
    assert("union_specifier"@.len() != "preproc_def"@.len());
    assert("union_specifier"@.len() != "preproc_function_def"@.len());
    assert("union_specifier"@.len() != "template_declaration"@.len());
    assert("union_specifier"@.len() != "field_declaration"@.len());
    assert("enum_specifier"@.len() != "declaration"@.len());
    assert("enum_specifier"@.len() != "function_declarator"@.len());
    assert("enum_specifier"@.len() != "identifier"@.len());
    assert("enum_specifier"@.len() != "type_definition"@.len());
    assert("enum_specifier"@.len() != "alias_declaration"@.len());
    assert("enum_specifier"@.len() != "preproc_def"@.len());
    assert("enum_specifier"@.len() != "preproc_function_def"@.len());
    assert("enum_specifier"@.len() != "template_declaration"@.len());
    assert("enum_specifier"@.len() != "field_declaration"@.len());
    assert("declaration"@.len() != "function_declarator"@.len());
    assert("declaration"@.len() != "identifier"@.len());
    assert("declaration"@.len() != "type_definition"@.len());
    assert("declaration"@.len() != "alias_declaration"@.len());
    assert("declaration"@[0] != "preproc_def"@[0]);
    assert("declaration"@.len() != "preproc_function_def"@.len());
    assert("declaration"@.len() != "template_declaration"@.len());
    assert("declaration"@.len() != "field_declaration"@.len());
    assert("function_declarator"@.len() != "identifier"@.len());
    assert("function_declarator"@.len() != "type_definition"@.len());
    assert("function_declarator"@.len() != "alias_declaration"@.len());
    assert("function_declarator"@.len() != "preproc_def"@.len());
    assert("function_declarator"@.len() != "preproc_function_def"@.len());
    assert("function_declarator"@.len() != "template_declaration"@.len());
    assert("function_declarator"@.len() != "field_declaration"@.len());
    assert("identifier"@.len() != "type_definition"@.len());
    assert("identifier"@.len() != "alias_declaration"@.len());
    assert("identifier"@.len() != "preproc_def"@.len());
    assert("identifier"@.len() != "preproc_function_def"@.len());
    assert("identifier"@.len() != "template_declaration"@.len());
    assert("identifier"@.len() != "field_declaration"@.len());
    assert("type_definition"@.len() != "alias_declaration"@.len());
    assert("type_definition"@.len() != "preproc_def"@.len());
    assert("type_definition"@.len() != "preproc_function_def"@.len());
    assert("type_definition"@.len() != "template_declaration"@.len());
    assert("type_definition"@.len() != "field_declaration"@.len());
    assert("alias_declaration"@.len() != "preproc_def"@.len());
    assert("alias_declaration"@.len() != "preproc_function_def"@.len());
    assert("alias_declaration"@.len() != "template_declaration"@.len());
    assert("alias_declaration"@[0] != "field_declaration"@[0]);
    assert("preproc_def"@.len() != "preproc_function_def"@.len());
    assert("preproc_def"@.len() != "template_declaration"@.len());
    assert("preproc_def"@.len() != "field_declaration"@.len());
    assert("preproc_function_def"@[0] != "template_declaration"@[0]);
    assert("preproc_function_def"@.len() != "field_declaration"@.len());
    assert("template_declaration"@.len() != "field_declaration"@.len());
}

proof fn leaf_name_kinds()
    ensures
        "type_identifier"@ != "template_type"@,
        "type_identifier"@ != "qualified_identifier"@,
        "template_type"@ != "qualified_identifier"@,
{
    reveal_strlit("type_identifier");
    reveal_strlit("template_type");
    reveal_strlit("qualified_identifier");
    assert("type_identifier"@.len() != "template_type"@.len());
    assert("type_identifier"@.len() != "qualified_identifier"@.len());
    assert("template_type"@.len() != "qualified_identifier"@.len());
}

proof fn member_at_kinds()
    ensures
        "class_specifier"@ != "template_declaration"@,
        "struct_specifier"@ != "template_declaration"@,
        "union_specifier"@ != "template_declaration"@,
        "enum_specifier"@ != "template_declaration"@,
        "declaration"@ != "template_declaration"@,
        "type_definition"@ != "template_declaration"@,
        "field_declaration"@ != "template_declaration"@,
        "function_definition"@ != "template_declaration"@,
        "alias_declaration"@ != "template_declaration"@,
{
    reveal_strlit("class_specifier");
    reveal_strlit("template_declaration");
    reveal_strlit("struct_specifier");
    reveal_strlit("union_specifier");
    reveal_strlit("enum_specifier");
    reveal_strlit("declaration");
    reveal_strlit("type_definition");
    reveal_strlit("field_declaration");
    reveal_strlit("function_definition");
    reveal_strlit("alias_declaration");
    assert("class_specifier"@.len() != "template_declaration"@.len());
    assert("struct_specifier"@.len() != "template_declaration"@.len());
    assert("union_specifier"@.len() != "template_declaration"@.len());
    assert("enum_specifier"@.len() != "template_declaration"@.len());
    assert("declaration"@.len() != "template_declaration"@.len());
    assert("type_definition"@.len() != "template_declaration"@.len());
    assert("field_declaration"@.len() != "template_declaration"@.len());
    assert("function_definition"@.len() != "template_declaration"@.len());
    assert("alias_declaration"@.len() != "template_declaration"@.len());
}

proof fn holds_types_kinds()
    ensures
        "class_specifier"@ != "field_declaration"@,
        "class_specifier"@ != "declaration"@,
        "class_specifier"@ != "type_definition"@,
        "struct_specifier"@ != "field_declaration"@,
        "struct_specifier"@ != "declaration"@,
        "struct_specifier"@ != "type_definition"@,
        "union_specifier"@ != "field_declaration"@,
        "union_specifier"@ != "declaration"@,
        "union_specifier"@ != "type_definition"@,
        "enum_specifier"@ != "field_declaration"@,
        "enum_specifier"@ != "declaration"@,
        "enum_specifier"@ != "type_definition"@,
        "declaration"@ != "field_declaration"@,
        "declaration"@ != "type_definition"@,
        "type_definition"@ != "field_declaration"@,
        "function_definition"@ != "field_declaration"@,
        "function_definition"@ != "declaration"@,
        "function_definition"@ != "type_definition"@,
        "alias_declaration"@ != "field_declaration"@,
        "alias_declaration"@ != "declaration"@,
        "alias_declaration"@ != "type_definition"@,
{
    reveal_strlit("class_specifier");
    reveal_strlit("field_declaration");
    reveal_strlit("declaration");
    reveal_strlit("type_definition");
    reveal_strlit("struct_specifier");
    reveal_strlit("union_specifier");
    reveal_strlit("enum_specifier");
    reveal_strlit("function_definition");
    reveal_strlit("alias_declaration");
    assert("class_specifier"@.len() != "field_declaration"@.len());
    assert("class_specifier"@.len() != "declaration"@.len());
    assert("class_specifier"@[0] != "type_definition"@[0]);
    assert("struct_specifier"@.len() != "field_declaration"@.len());
    assert("struct_specifier"@.len() != "declaration"@.len());
    assert("struct_specifier"@.len() != "type_definition"@.len());
    assert("union_specifier"@.len() != "field_declaration"@.len());
    assert("union_specifier"@.len() != "declaration"@.len());
    assert("union_specifier"@[0] != "type_definition"@[0]);
    assert("enum_specifier"@.len() != "field_declaration"@.len());
    assert("enum_specifier"@.len() != "declaration"@.len());
    assert("enum_specifier"@.len() != "type_definition"@.len());
    assert("declaration"@.len() != "field_declaration"@.len());
    assert("declaration"@.len() != "type_definition"@.len());
    assert("type_definition"@.len() != "field_declaration"@.len());
    assert("function_definition"@.len() != "field_declaration"@.len());
    assert("function_definition"@.len() != "declaration"@.len());
    assert("function_definition"@.len() != "type_definition"@.len());
    assert("alias_declaration"@[0] != "field_declaration"@[0]);
    assert("alias_declaration"@.len() != "declaration"@.len());
    assert("alias_declaration"@.len() != "type_definition"@.len());
}

proof fn member_symbol_kinds()
    ensures
        "function_definition"@ != "type_definition"@,
        "field_declaration"@ != "type_definition"@,
        "field_declaration"@ != "function_definition"@,
        "declaration"@ != "type_definition"@,
        "declaration"@ != "function_definition"@,
        "alias_declaration"@ != "type_definition"@,
        "alias_declaration"@ != "function_definition"@,
{
    reveal_strlit("function_definition");
    reveal_strlit("type_definition");
    reveal_strlit("field_declaration");
    reveal_strlit("declaration");
    reveal_strlit("alias_declaration");
    assert("function_definition"@.len() != "type_definition"@.len());
    assert("field_declaration"@.len() != "type_definition"@.len());
    assert("field_declaration"@.len() != "function_definition"@.len());
    assert("declaration"@.len() != "type_definition"@.len());
    assert("declaration"@.len() != "function_definition"@.len());
    assert("alias_declaration"@.len() != "type_definition"@.len());
    assert("alias_declaration"@.len() != "function_definition"@.len());
}

proof fn member_symbols_kinds()
    ensures
        "function_definition"@ != "alias_declaration"@,
        "field_declaration"@ != "function_definition"@,
        "field_declaration"@ != "alias_declaration"@,
        "declaration"@ != "function_definition"@,
        "declaration"@ != "alias_declaration"@,
        "type_definition"@ != "function_definition"@,
        "type_definition"@ != "alias_declaration"@,
{
    reveal_strlit("function_definition");
    reveal_strlit("alias_declaration");
    reveal_strlit("field_declaration");
    reveal_strlit("declaration");
    reveal_strlit("type_definition");
    assert("function_definition"@.len() != "alias_declaration"@.len());
    assert("field_declaration"@.len() != "function_definition"@.len());
    assert("field_declaration"@[0] != "alias_declaration"@[0]);
    assert("declaration"@.len() != "function_definition"@.len());
    assert("declaration"@.len() != "alias_declaration"@.len());
    assert("type_definition"@.len() != "function_definition"@.len());
    assert("type_definition"@.len() != "alias_declaration"@.len());
}

proof fn leaves_at_kinds()
    ensures
        "qualified_identifier"@ != "type_identifier"@,
        "qualified_identifier"@ != "template_type"@,
        "template_type"@ != "type_identifier"@,
        "type_descriptor"@ != "type_identifier"@,
        "type_descriptor"@ != "qualified_identifier"@,
        "type_descriptor"@ != "template_type"@,
{
    reveal_strlit("qualified_identifier");
    reveal_strlit("type_identifier");
    reveal_strlit("template_type");
    reveal_strlit("type_descriptor");
    assert("qualified_identifier"@.len() != "type_identifier"@.len());
    assert("qualified_identifier"@.len() != "template_type"@.len());
    assert("template_type"@.len() != "type_identifier"@.len());
    assert("type_descriptor"@[5] != "type_identifier"@[5]);
    assert("type_descriptor"@.len() != "qualified_identifier"@.len());
    assert("type_descriptor"@.len() != "template_type"@.len());
}

proof fn template_args_in_kinds()
    ensures
        "qualified_identifier"@ != "type_descriptor"@,
        "qualified_identifier"@ != "type_identifier"@,
        "qualified_identifier"@ != "template_type"@,
        "template_type"@ != "type_descriptor"@,
        "template_type"@ != "type_identifier"@,
        "type_descriptor"@ != "type_identifier"@,
{
    reveal_strlit("qualified_identifier");
    reveal_strlit("type_descriptor");
    reveal_strlit("type_identifier");
    reveal_strlit("template_type");
    assert("qualified_identifier"@.len() != "type_descriptor"@.len());
    assert("qualified_identifier"@.len() != "type_identifier"@.len());
    assert("qualified_identifier"@.len() != "template_type"@.len());
    assert("template_type"@.len() != "type_descriptor"@.len());
    assert("template_type"@.len() != "type_identifier"@.len());
    assert("type_descriptor"@[5] != "type_identifier"@[5]);
}

proof fn typed_place_kinds()
    ensures
        "function_definition"@ != "parameter_declaration"@,
        "function_definition"@ != "optional_parameter_declaration"@,
        "function_definition"@ != "field_declaration"@,
        "parameter_declaration"@ != "optional_parameter_declaration"@,
        "parameter_declaration"@ != "field_declaration"@,
        "optional_parameter_declaration"@ != "field_declaration"@,
{
    reveal_strlit("function_definition");
    reveal_strlit("parameter_declaration");
    reveal_strlit("optional_parameter_declaration");
    reveal_strlit("field_declaration");
    assert("function_definition"@.len() != "parameter_declaration"@.len());
    assert("function_definition"@.len() != "optional_parameter_declaration"@.len());
    assert("function_definition"@.len() != "field_declaration"@.len());
    assert("parameter_declaration"@.len() != "optional_parameter_declaration"@.len());
    assert("parameter_declaration"@.len() != "field_declaration"@.len());
    assert("optional_parameter_declaration"@.len() != "field_declaration"@.len());
}

proof fn introduced_kinds()
    ensures
        "function_definition"@ != "lambda_expression"@,
        "function_definition"@ != "for_range_loop"@,
        "lambda_expression"@ != "for_range_loop"@,
        "reference_declarator"@ != "function_definition"@,
        "reference_declarator"@ != "lambda_expression"@,
        "reference_declarator"@ != "for_range_loop"@,
        "init_declarator"@ != "function_definition"@,
        "init_declarator"@ != "lambda_expression"@,
        "init_declarator"@ != "for_range_loop"@,
{
    reveal_strlit("function_definition");
    reveal_strlit("lambda_expression");
    reveal_strlit("for_range_loop");
    reveal_strlit("reference_declarator");
    reveal_strlit("init_declarator");
    assert("function_definition"@.len() != "lambda_expression"@.len());
    assert("function_definition"@.len() != "for_range_loop"@.len());
    assert("lambda_expression"@.len() != "for_range_loop"@.len());
    assert("reference_declarator"@.len() != "function_definition"@.len());
    assert("reference_declarator"@.len() != "lambda_expression"@.len());
    assert("reference_declarator"@.len() != "for_range_loop"@.len());
    assert("init_declarator"@.len() != "function_definition"@.len());
    assert("init_declarator"@.len() != "lambda_expression"@.len());
    assert("init_declarator"@.len() != "for_range_loop"@.len());
}

proof fn bindings_at_kinds()
    ensures
        "function_definition"@ != "declaration"@,
        "lambda_expression"@ != "declaration"@,
        "for_range_loop"@ != "declaration"@,
        "reference_declarator"@ != "declaration"@,
        "init_declarator"@ != "declaration"@,
{
    reveal_strlit("function_definition");
    reveal_strlit("declaration");
    reveal_strlit("lambda_expression");
    reveal_strlit("for_range_loop");
    reveal_strlit("reference_declarator");
    reveal_strlit("init_declarator");
    assert("function_definition"@.len() != "declaration"@.len());
    assert("lambda_expression"@.len() != "declaration"@.len());
    assert("for_range_loop"@.len() != "declaration"@.len());
    assert("reference_declarator"@.len() != "declaration"@.len());
    assert("init_declarator"@.len() != "declaration"@.len());
}

proof fn unpacked_kinds()
    ensures
        "for_range_loop"@ != "structured_binding_declarator"@,
        "for_range_loop"@ != "reference_declarator"@,
        "reference_declarator"@ != "structured_binding_declarator"@,
        "init_declarator"@ != "structured_binding_declarator"@,
        "init_declarator"@ != "reference_declarator"@,
{
    reveal_strlit("for_range_loop");
    reveal_strlit("structured_binding_declarator");
    reveal_strlit("reference_declarator");
    reveal_strlit("init_declarator");
    assert("for_range_loop"@.len() != "structured_binding_declarator"@.len());
    assert("for_range_loop"@.len() != "reference_declarator"@.len());
    assert("reference_declarator"@.len() != "structured_binding_declarator"@.len());
    assert("init_declarator"@.len() != "structured_binding_declarator"@.len());
    assert("init_declarator"@.len() != "reference_declarator"@.len());
}

proof fn scopes_with_kinds()
    ensures
        "namespace_definition"@ != "class_specifier"@,
        "namespace_definition"@ != "struct_specifier"@,
        "namespace_definition"@ != "union_specifier"@,
        "namespace_definition"@ != "function_definition"@,
        "namespace_definition"@ != "lambda_expression"@,
        "namespace_definition"@ != "compound_statement"@,
        "class_specifier"@ != "struct_specifier"@,
        "class_specifier"@ != "union_specifier"@,
        "class_specifier"@ != "function_definition"@,
        "class_specifier"@ != "lambda_expression"@,
        "class_specifier"@ != "compound_statement"@,
        "struct_specifier"@ != "union_specifier"@,
        "struct_specifier"@ != "function_definition"@,
        "struct_specifier"@ != "lambda_expression"@,
        "struct_specifier"@ != "compound_statement"@,
        "union_specifier"@ != "function_definition"@,
        "union_specifier"@ != "lambda_expression"@,
        "union_specifier"@ != "compound_statement"@,
        "function_definition"@ != "lambda_expression"@,
        "function_definition"@ != "compound_statement"@,
        "lambda_expression"@ != "compound_statement"@,
{
    reveal_strlit("namespace_definition");
    reveal_strlit("class_specifier");
    reveal_strlit("struct_specifier");
    reveal_strlit("union_specifier");
    reveal_strlit("function_definition");
    reveal_strlit("lambda_expression");
    reveal_strlit("compound_statement");
    assert("namespace_definition"@.len() != "class_specifier"@.len());
    assert("namespace_definition"@.len() != "struct_specifier"@.len());
    assert("namespace_definition"@.len() != "union_specifier"@.len());
    assert("namespace_definition"@.len() != "function_definition"@.len());
    assert("namespace_definition"@.len() != "lambda_expression"@.len());
    assert("namespace_definition"@.len() != "compound_statement"@.len());
    assert("class_specifier"@.len() != "struct_specifier"@.len());
    assert("class_specifier"@[0] != "union_specifier"@[0]);
    assert("class_specifier"@.len() != "function_definition"@.len());
    assert("class_specifier"@.len() != "lambda_expression"@.len());
    assert("class_specifier"@.len() != "compound_statement"@.len());
    assert("struct_specifier"@.len() != "union_specifier"@.len());
    assert("struct_specifier"@.len() != "function_definition"@.len());
    assert("struct_specifier"@.len() != "lambda_expression"@.len());
    assert("struct_specifier"@.len() != "compound_statement"@.len());
    assert("union_specifier"@.len() != "function_definition"@.len());
    assert("union_specifier"@.len() != "lambda_expression"@.len());
    assert("union_specifier"@.len() != "compound_statement"@.len());
    assert("function_definition"@.len() != "lambda_expression"@.len());
    assert("function_definition"@.len() != "compound_statement"@.len());
    assert("lambda_expression"@.len() != "compound_statement"@.len());
}

proof fn reads_reported(
    t: Syntax,
    file: Seq<char>,
    found: Seq<Seq<CaptureView>>,
    on_self: Seq<Seq<CaptureView>>,
    on_receiver: Seq<Seq<CaptureView>>,
    i: int,
    r: ReferenceView,
)
    requires
        t.nested(),
        0 <= i < t.after(0),
        forall|j: int, k: int| t.has(j) && t.kind(j) == "identifier"@
            && j < k < #[trigger] t.after(j)
            ==> #[trigger] t.kind(k) != "identifier"@,
        read_of(t, file, i).contains(r),
    ensures
        reported(facts_of(t, file, found, on_self, on_receiver), r),
{
    reads_in_document_order(t, file, 0);
    let k = choose|k: int| 0 <= k < read_of(t, file, i).len() && read_of(t, file, i)[k] == r;
    in_order_each(reads_of_nodes(t, file), 0, t.after(0), i, k);
    assert(reads_at(t, file, 0).contains(r));
    in_either(
        calls_qualified(t.source, file, found, on_self, on_receiver) + inherits_at(t, file, 0),
        reads_at(t, file, 0),
        r,
    );
    in_either(
        calls_qualified(t.source, file, found, on_self, on_receiver) + inherits_at(t, file, 0)
            + reads_at(t, file, 0),
        writes_at(t, file, 0),
        r,
    );
    in_either(
        calls_qualified(t.source, file, found, on_self, on_receiver) + inherits_at(t, file, 0)
            + reads_at(t, file, 0) + writes_at(t, file, 0),
        type_refs_at(t, file, 0),
        r,
    );
    is_reported(
        facts_of(t, file, found, on_self, on_receiver),
        references_of(t, file, found, on_self, on_receiver),
        r,
    );
}

proof fn writes_reported(
    t: Syntax,
    file: Seq<char>,
    found: Seq<Seq<CaptureView>>,
    on_self: Seq<Seq<CaptureView>>,
    on_receiver: Seq<Seq<CaptureView>>,
    i: int,
    r: ReferenceView,
)
    requires
        t.nested(),
        0 <= i < t.after(0),
        write_of(t, file, i).contains(r),
    ensures
        reported(facts_of(t, file, found, on_self, on_receiver), r),
{
    writes_in_document_order(t, file, 0);
    let k = choose|k: int| 0 <= k < write_of(t, file, i).len() && write_of(t, file, i)[k] == r;
    in_order_each(writes_of_nodes(t, file), 0, t.after(0), i, k);
    assert(writes_at(t, file, 0).contains(r));
    in_either(
        calls_qualified(t.source, file, found, on_self, on_receiver) + inherits_at(t, file, 0)
            + reads_at(t, file, 0),
        writes_at(t, file, 0),
        r,
    );
    in_either(
        calls_qualified(t.source, file, found, on_self, on_receiver) + inherits_at(t, file, 0)
            + reads_at(t, file, 0) + writes_at(t, file, 0),
        type_refs_at(t, file, 0),
        r,
    );
    is_reported(
        facts_of(t, file, found, on_self, on_receiver),
        references_of(t, file, found, on_self, on_receiver),
        r,
    );
}

proof fn type_refs_reported(
    t: Syntax,
    file: Seq<char>,
    found: Seq<Seq<CaptureView>>,
    on_self: Seq<Seq<CaptureView>>,
    on_receiver: Seq<Seq<CaptureView>>,
    i: int,
    r: ReferenceView,
)
    requires
        t.nested(),
        0 <= i < t.after(0),
        own_type_refs(t, file, i).contains(r),
    ensures
        reported(facts_of(t, file, found, on_self, on_receiver), r),
{
    type_refs_in_document_order(t, file, 0);
    let k = choose|k: int| 0 <= k < own_type_refs(t, file, i).len()
        && own_type_refs(t, file, i)[k] == r;
    in_order_each(type_refs_of_nodes(t, file), 0, t.after(0), i, k);
    assert(type_refs_at(t, file, 0).contains(r));
    in_either(
        calls_qualified(t.source, file, found, on_self, on_receiver) + inherits_at(t, file, 0)
            + reads_at(t, file, 0) + writes_at(t, file, 0),
        type_refs_at(t, file, 0),
        r,
    );
    is_reported(
        facts_of(t, file, found, on_self, on_receiver),
        references_of(t, file, found, on_self, on_receiver),
        r,
    );
}

proof fn inherits_reported(
    t: Syntax,
    file: Seq<char>,
    found: Seq<Seq<CaptureView>>,
    on_self: Seq<Seq<CaptureView>>,
    on_receiver: Seq<Seq<CaptureView>>,
    i: int,
    r: ReferenceView,
)
    requires
        t.nested(),
        0 <= i < t.after(0),
        class_bases(t, file, i).contains(r),
    ensures
        reported(facts_of(t, file, found, on_self, on_receiver), r),
{
    inherits_in_document_order(t, file, 0);
    let k = choose|k: int| 0 <= k < class_bases(t, file, i).len()
        && class_bases(t, file, i)[k] == r;
    in_order_each(inherits_of_nodes(t, file), 0, t.after(0), i, k);
    assert(inherits_at(t, file, 0).contains(r));
    in_either(
        calls_qualified(t.source, file, found, on_self, on_receiver),
        inherits_at(t, file, 0),
        r,
    );
    in_either(
        calls_qualified(t.source, file, found, on_self, on_receiver) + inherits_at(t, file, 0),
        reads_at(t, file, 0),
        r,
    );
    in_either(
        calls_qualified(t.source, file, found, on_self, on_receiver) + inherits_at(t, file, 0)
            + reads_at(t, file, 0),
        writes_at(t, file, 0),
        r,
    );
    in_either(
        calls_qualified(t.source, file, found, on_self, on_receiver) + inherits_at(t, file, 0)
            + reads_at(t, file, 0) + writes_at(t, file, 0),
        type_refs_at(t, file, 0),
        r,
    );
    is_reported(
        facts_of(t, file, found, on_self, on_receiver),
        references_of(t, file, found, on_self, on_receiver),
        r,
    );
}

proof fn member_declarators_in_has(
    c: Ctx,
    prefix: Seq<DescriptorView>,
    visibility: Visibility,
    owner: int,
    lo: int,
    hi: int,
    j: int,
    x: SymbolView,
)
    requires
        0 <= lo,
        hi <= c.tree.len(),
        c.tree.reaches(lo, hi, j),
        ((if c.tree.in_field(j, "declarator"@) { member_symbol(c, prefix, visibility, owner, j) } else { Seq::empty() })).contains(
            x,
        ),
    ensures
        member_declarators_in(c, prefix, visibility, owner, lo, hi).contains(x),
    decreases hi - lo,
{
    let own = (if c.tree.in_field(lo, "declarator"@) { member_symbol(c, prefix, visibility, owner, lo) } else { Seq::empty() });
    let rest = member_declarators_in(c, prefix, visibility, owner, c.tree.next(lo, hi), hi);
    if j != lo {
        member_declarators_in_has(c, prefix, visibility, owner, c.tree.next(lo, hi), hi, j, x);
    }
    in_either(own, rest, x);
}

proof fn templated_members_in_has(
    c: Ctx,
    ns: Seq<Seq<char>>,
    name: Seq<char>,
    visibility: Visibility,
    lo: int,
    hi: int,
    j: int,
    x: SymbolView,
)
    requires
        0 <= lo,
        hi <= c.tree.len(),
        c.tree.reaches(lo, hi, j),
        ((if is_templated(c.tree, j) { member_at(c, ns, name, visibility, j) } else { Seq::empty() })).contains(
            x,
        ),
    ensures
        templated_members_in(c, ns, name, visibility, lo, hi).contains(x),
    decreases hi - lo,
{
    let own = (if is_templated(c.tree, lo) { member_at(c, ns, name, visibility, lo) } else { Seq::empty() });
    let rest = templated_members_in(c, ns, name, visibility, c.tree.next(lo, hi), hi);
    if j != lo {
        templated_members_in_has(c, ns, name, visibility, c.tree.next(lo, hi), hi, j, x);
    }
    in_either(own, rest, x);
}

proof fn declarators_in_has(
    c: Ctx,
    ns: Seq<Seq<char>>,
    owner: int,
    lo: int,
    hi: int,
    j: int,
    x: SymbolView,
)
    requires
        0 <= lo,
        hi <= c.tree.len(),
        c.tree.reaches(lo, hi, j),
        ((if c.tree.in_field(j, "declarator"@) { declarator_symbol(c, ns, owner, j) } else { Seq::empty() })).contains(
            x,
        ),
    ensures
        declarators_in(c, ns, owner, lo, hi).contains(x),
    decreases hi - lo,
{
    let own = (if c.tree.in_field(lo, "declarator"@) { declarator_symbol(c, ns, owner, lo) } else { Seq::empty() });
    let rest = declarators_in(c, ns, owner, c.tree.next(lo, hi), hi);
    if j != lo {
        declarators_in_has(c, ns, owner, c.tree.next(lo, hi), hi, j, x);
    }
    in_either(own, rest, x);
}

proof fn typedefs_in_has(
    c: Ctx,
    ns: Seq<Seq<char>>,
    owner: int,
    lo: int,
    hi: int,
    j: int,
    x: SymbolView,
)
    requires
        0 <= lo,
        hi <= c.tree.len(),
        c.tree.reaches(lo, hi, j),
        ((if c.tree.in_field(j, "declarator"@) { match declared(c.tree, j) { Some((name, _)) => alias_symbols(c, ns, owner, Some(name)), None => Seq::empty(), } } else { Seq::empty() })).contains(
            x,
        ),
    ensures
        typedefs_in(c, ns, owner, lo, hi).contains(x),
    decreases hi - lo,
{
    let own = (if c.tree.in_field(lo, "declarator"@) { match declared(c.tree, lo) { Some((name, _)) => alias_symbols(c, ns, owner, Some(name)), None => Seq::empty(), } } else { Seq::empty() });
    let rest = typedefs_in(c, ns, owner, c.tree.next(lo, hi), hi);
    if j != lo {
        typedefs_in_has(c, ns, owner, c.tree.next(lo, hi), hi, j, x);
    }
    in_either(own, rest, x);
}

proof fn defs_in_has(c: Ctx, ns: Seq<Seq<char>>, lo: int, hi: int, j: int, x: SymbolView)
    requires
        0 <= lo,
        hi <= c.tree.len(),
        c.tree.reaches(lo, hi, j),
        defs_at(c, ns, j).contains(x),
    ensures
        defs_in(c, ns, lo, hi).contains(x),
    decreases hi - lo,
{
    let own = defs_at(c, ns, lo);
    let rest = defs_in(c, ns, c.tree.next(lo, hi), hi);
    if j != lo {
        defs_in_has(c, ns, c.tree.next(lo, hi), hi, j, x);
    }
    in_either(own, rest, x);
}

proof fn templated_in_has(c: Ctx, ns: Seq<Seq<char>>, lo: int, hi: int, j: int, x: SymbolView)
    requires
        0 <= lo,
        hi <= c.tree.len(),
        c.tree.reaches(lo, hi, j),
        ((if is_templated(c.tree, j) { defs_at(c, ns, j) } else { Seq::empty() })).contains(x),
    ensures
        templated_in(c, ns, lo, hi).contains(x),
    decreases hi - lo,
{
    let own = (if is_templated(c.tree, lo) { defs_at(c, ns, lo) } else { Seq::empty() });
    let rest = templated_in(c, ns, c.tree.next(lo, hi), hi);
    if j != lo {
        templated_in_has(c, ns, c.tree.next(lo, hi), hi, j, x);
    }
    in_either(own, rest, x);
}

proof fn unpacked_in_has(t: Syntax, scopes: Seq<Scope>, lo: int, hi: int, j: int, x: BindingView)
    requires
        0 <= lo,
        hi <= t.len(),
        t.reaches(lo, hi, j),
        ((if t.kind(j) == "identifier"@ && in_code(scopes, t.start(j)) { seq![local_binding(scopes, t.text(j), t.start(j), BindingKind::Local, None)] } else { Seq::empty() })).contains(
            x,
        ),
    ensures
        unpacked_in(t, scopes, lo, hi).contains(x),
    decreases hi - lo,
{
    let own = (if t.kind(lo) == "identifier"@ && in_code(scopes, t.start(lo)) { seq![local_binding(scopes, t.text(lo), t.start(lo), BindingKind::Local, None)] } else { Seq::empty() });
    let rest = unpacked_in(t, scopes, t.next(lo, hi), hi);
    if j != lo {
        unpacked_in_has(t, scopes, t.next(lo, hi), hi, j, x);
    }
    in_either(own, rest, x);
}

proof fn params_in_has(t: Syntax, scopes: Seq<Scope>, lo: int, hi: int, j: int, x: BindingView)
    requires
        0 <= lo,
        hi <= t.len(),
        t.reaches(lo, hi, j),
        param_at(t, scopes, j).contains(x),
    ensures
        params_in(t, scopes, lo, hi).contains(x),
    decreases hi - lo,
{
    let own = param_at(t, scopes, lo);
    let rest = params_in(t, scopes, t.next(lo, hi), hi);
    if j != lo {
        params_in_has(t, scopes, t.next(lo, hi), hi, j, x);
    }
    in_either(own, rest, x);
}

proof fn template_args_in_has(
    t: Syntax,
    file: Seq<char>,
    lo: int,
    hi: int,
    j: int,
    x: ReferenceView,
)
    requires
        0 <= lo,
        hi <= t.len(),
        t.reaches(lo, hi, j),
        ((if t.kind(j) == "type_descriptor"@ { match t.child(j, "type"@) { Some(ty) => leaves_at(t, file, TypeRefContext::GenericArg, ty), None => Seq::empty(), } } else if t.kind(j) == "type_identifier"@ || t.kind(j) == "qualified_identifier"@ || t.kind(j) == "template_type"@ { leaves_at(t, file, TypeRefContext::GenericArg, j) } else { Seq::empty() })).contains(
            x,
        ),
    ensures
        template_args_in(t, file, lo, hi).contains(x),
    decreases hi - lo,
{
    let own = (if t.kind(lo) == "type_descriptor"@ { match t.child(lo, "type"@) { Some(ty) => leaves_at(t, file, TypeRefContext::GenericArg, ty), None => Seq::empty(), } } else if t.kind(lo) == "type_identifier"@ || t.kind(lo) == "qualified_identifier"@ || t.kind(lo) == "template_type"@ { leaves_at(t, file, TypeRefContext::GenericArg, lo) } else { Seq::empty() });
    let rest = template_args_in(t, file, t.next(lo, hi), hi);
    if j != lo {
        template_args_in_has(t, file, t.next(lo, hi), hi, j, x);
    }
    in_either(own, rest, x);
}

proof fn template_lists_in_has(
    t: Syntax,
    file: Seq<char>,
    lo: int,
    hi: int,
    j: int,
    x: ReferenceView,
)
    requires
        0 <= lo,
        hi <= t.len(),
        t.reaches(lo, hi, j),
        ((if t.kind(j) == "template_argument_list"@ { template_args_in(t, file, j + 1, t.after(j)) } else { Seq::empty() })).contains(
            x,
        ),
    ensures
        template_lists_in(t, file, lo, hi).contains(x),
    decreases hi - lo,
{
    let own = (if t.kind(lo) == "template_argument_list"@ { template_args_in(t, file, lo + 1, t.after(lo)) } else { Seq::empty() });
    let rest = template_lists_in(t, file, t.next(lo, hi), hi);
    if j != lo {
        template_lists_in_has(t, file, t.next(lo, hi), hi, j, x);
    }
    in_either(own, rest, x);
}

proof fn bases_in_has(t: Syntax, file: Seq<char>, lo: int, hi: int, j: int, x: ReferenceView)
    requires
        0 <= lo,
        hi <= t.len(),
        t.reaches(lo, hi, j),
        base_of(t, file, j).contains(x),
    ensures
        bases_in(t, file, lo, hi).contains(x),
    decreases hi - lo,
{
    let own = base_of(t, file, lo);
    let rest = bases_in(t, file, t.next(lo, hi), hi);
    if j != lo {
        bases_in_has(t, file, t.next(lo, hi), hi, j, x);
    }
    in_either(own, rest, x);
}

/// Whether a node holds parts of the file: a section of the preprocessor, or the
/// declarations of a linkage.
pub open spec fn is_part(t: Syntax, i: int) -> bool {
    ||| t.kind(i) == "preproc_if"@
    ||| t.kind(i) == "preproc_ifdef"@
    ||| t.kind(i) == "preproc_else"@
    ||| t.kind(i) == "preproc_elif"@
    ||| t.kind(i) == "preproc_elifdef"@
    ||| t.kind(i) == "linkage_specification"@
    ||| t.kind(i) == "declaration_list"@
}

/// Whether a node can stand behind the parameters of a template.
pub open spec fn is_pattern(t: Syntax, i: int) -> bool {
    ||| t.kind(i) == "function_definition"@
    ||| t.kind(i) == "declaration"@
    ||| t.kind(i) == "alias_declaration"@
    ||| t.kind(i) == "class_specifier"@
    ||| t.kind(i) == "struct_specifier"@
    ||| t.kind(i) == "union_specifier"@
    ||| t.kind(i) == "template_declaration"@
}

/// Whether a node defines a class, a struct, a union or an enum.
pub open spec fn is_aggregate(t: Syntax, i: int) -> bool {
    ||| t.kind(i) == "class_specifier"@
    ||| t.kind(i) == "struct_specifier"@
    ||| t.kind(i) == "union_specifier"@
    ||| t.kind(i) == "enum_specifier"@
}

/// Whether the nodes of `holder` stand where the node `owner` does: those of a part of
/// the file, of a template or of the body of a namespace.
pub open spec fn holds_for(t: Syntax, owner: int, holder: int, i: int) -> bool {
    ||| is_part(t, owner) && holder == owner
    ||| t.kind(owner) == "template_declaration"@ && holder == owner && is_pattern(t, i)
    ||| t.kind(owner) == "namespace_definition"@ && t.child(owner, "body"@) == Some(holder)
}

/// Whether node `i` stands at the top of the file, or where something that does
/// holds it.
pub open spec fn at_top(t: Syntax, i: int) -> bool
    decreases i,
{
    t.has_child(0, i) || exists|owner: int, holder: int|
        #![trigger t.kind(owner), t.has_child(holder, i)]
        0 < owner <= holder < i && at_top(t, owner) && holds_for(t, owner, holder, i)
            && t.has_child(holder, i)
}

proof fn top_is_placed(c: Ctx, ns: Seq<Seq<char>>, i: int) -> (at: Seq<Seq<char>>)
    requires
        at_top(c.tree, i),
    ensures
        forall|x: SymbolView| #[trigger] defs_at(c, at, i).contains(x)
            ==> defs_in(c, ns, 1, c.tree.after(0)).contains(x),
    decreases i,
{
    defs_at_kinds();
    is_section_kinds();
    let t = c.tree;
    if t.has_child(0, i) {
        assert forall|x: SymbolView| #[trigger] defs_at(c, ns, i).contains(x) implies defs_in(c, ns, 1, t.after(0)).contains(x) by {
            defs_in_has(c, ns, 1, t.after(0), i, x);
        }
        ns
    } else {
        let (owner, holder) = choose|owner: int, holder: int|
            #![trigger t.kind(owner), t.has_child(holder, i)]
            0 < owner <= holder < i && at_top(t, owner) && holds_for(t, owner, holder, i)
                && t.has_child(holder, i);
        let outer = top_is_placed(c, ns, owner);
        let at = if is_part(t, owner)
            || t.kind(owner) == "template_declaration"@ { outer } else { inner_namespaces(t, outer, owner) };
        assert forall|x: SymbolView| #[trigger] defs_at(c, at, i).contains(x) implies defs_in(c, ns, 1, t.after(0)).contains(x) by {
            if is_part(t, owner) {
                defs_in_has(c, at, owner + 1, t.after(owner), i, x);
            } else if t.kind(owner) == "template_declaration"@ {
                templated_in_has(c, at, owner + 1, t.after(owner), i, x);
            } else {
                defs_in_has(c, at, holder + 1, t.after(holder), i, x);
            }
            assert(defs_at(c, outer, owner).contains(x));
        }
        at
    }
}

/// Whether node `i` stands in the namespaces `path` of the file: at its top where there
/// are none, or where something that stands so holds it. A namespace adds the pieces
/// of its name.
pub open spec fn lies_in(t: Syntax, i: int, path: Seq<Seq<char>>) -> bool
    decreases i,
{
    (t.has_child(0, i) && path.len() == 0) || exists|owner: int, holder: int|
        #![trigger t.kind(owner), t.has_child(holder, i)]
        0 < owner <= holder < i && holds_for(t, owner, holder, i) && t.has_child(holder, i)
            && adds(t, owner, path) && lies_in(t, owner, path_before(t, owner, path))
}

/// The pieces that a node adds to the namespaces.
pub open spec fn added(t: Syntax, owner: int) -> Seq<Seq<char>> {
    match t.child(owner, "name"@) {
        Some(n) => if !is_part(t, owner) && t.kind(owner) == "namespace_definition"@ {
            pieces(t.text(n), "::"@)
        } else {
            Seq::empty()
        },
        None => Seq::empty(),
    }
}

/// Whether namespaces end with the pieces that a node adds.
pub open spec fn adds(t: Syntax, owner: int, path: Seq<Seq<char>>) -> bool {
    path.len() >= added(t, owner).len() && path == path_before(t, owner, path) + added(t, owner)
}

/// Namespaces without the pieces that a node adds.
pub open spec fn path_before(t: Syntax, owner: int, path: Seq<Seq<char>>) -> Seq<Seq<char>> {
    path.take(path.len() - added(t, owner).len())
}

proof fn placed_lies_in(c: Ctx, ns: Seq<Seq<char>>, i: int, path: Seq<Seq<char>>, x: SymbolView)
    requires
        lies_in(c.tree, i, path),
        defs_at(c, ns + path, i).contains(x),
    ensures
        defs_in(c, ns, 1, c.tree.after(0)).contains(x),
    decreases i,
{
    defs_at_kinds();
    is_section_kinds();
    let t = c.tree;
    if t.has_child(0, i) && path.len() == 0 {
        assert(ns + path =~= ns);
        defs_in_has(c, ns, 1, t.after(0), i, x);
    } else {
        let (owner, holder) = choose|owner: int, holder: int|
            #![trigger t.kind(owner), t.has_child(holder, i)]
            0 < owner <= holder < i && holds_for(t, owner, holder, i) && t.has_child(holder, i)
                && adds(t, owner, path) && lies_in(t, owner, path_before(t, owner, path));
        let outer = path_before(t, owner, path);
        assert(ns + path =~= (ns + outer) + added(t, owner));
        if is_part(t, owner) {
            assert(ns + path =~= ns + outer);
            defs_in_has(c, ns + path, owner + 1, t.after(owner), i, x);
        } else if t.kind(owner) == "template_declaration"@ {
            assert(ns + path =~= ns + outer);
            templated_in_has(c, ns + path, owner + 1, t.after(owner), i, x);
        } else {
            assert(inner_namespaces(t, ns + outer, owner) =~= ns + path);
            defs_in_has(c, ns + path, holder + 1, t.after(holder), i, x);
        }
        assert(defs_at(c, ns + outer, owner).contains(x));
        placed_lies_in(c, ns, owner, outer, x);
    }
}

/// Whether node `i` is marked as `static`.
pub open spec fn is_static(t: Syntax, i: int) -> bool {
    exists|m: int| #[trigger] t.has_child(i, m) && t.kind(m) == "storage_class_specifier"@
        && t.text(m) == "static"@
}

/// What is seen of node `i`: it is private where it is `static`.
pub open spec fn shown(t: Syntax, i: int) -> Visibility {
    if is_static(t, i) {
        Visibility::Private
    } else {
        Visibility::Public
    }
}

proof fn static_is_among(t: Syntax, lo: int, hi: int)
    ensures
        static_in(t, lo, hi) <==> exists|m: int| #[trigger] t.reaches(lo, hi, m)
            && t.kind(m) == "storage_class_specifier"@ && t.text(m) == "static"@,
    decreases hi - lo,
{
    if lo < hi {
        static_is_among(t, t.next(lo, hi), hi);
        if static_in(t, lo, hi) {
            if t.kind(lo) == "storage_class_specifier"@ && t.text(lo) == "static"@ {
                assert(t.reaches(lo, hi, lo));
            } else {
                let m = choose|m: int| #[trigger] t.reaches(t.next(lo, hi), hi, m)
                    && t.kind(m) == "storage_class_specifier"@ && t.text(m) == "static"@;
                assert(t.reaches(lo, hi, m));
            }
        } else {
            assert forall|m: int| #[trigger] t.reaches(lo, hi, m) implies !(t.kind(m) == "storage_class_specifier"@ && t.text(m) == "static"@) by {
                if m != lo {
                    assert(t.reaches(t.next(lo, hi), hi, m));
                }
            }
        }
    }
}

proof fn static_is_child(t: Syntax, i: int)
    requires
        t.has(i),
    ensures
        static_at(t, i) == is_static(t, i),
{
    static_is_among(t, i + 1, t.after(i));
    if static_at(t, i) {
        let m = choose|m: int| #[trigger] t.reaches(i + 1, t.after(i), m)
            && t.kind(m) == "storage_class_specifier"@ && t.text(m) == "static"@;
        assert(t.has_child(i, m));
    }
    if is_static(t, i) {
        let m = choose|m: int| #[trigger] t.has_child(i, m)
            && t.kind(m) == "storage_class_specifier"@ && t.text(m) == "static"@;
        assert(t.reaches(i + 1, t.after(i), m));
    }
}

/// What the node `n` is called: a qualified name by its last piece.
pub open spec fn called(t: Syntax, n: int) -> Seq<char> {
    if t.kind(n) == "qualified_identifier"@ {
        after_last_part(t.text(n), "::"@)
    } else {
        t.text(n)
    }
}

/// Whether the declarator `d` introduces the name `n`, and whether as that of
/// a function: it is that name, or the declarator inside it introduces it.
pub open spec fn introduces(t: Syntax, d: int, n: int, function: bool) -> bool
    decreases n - d,
{
    if d >= n {
        d == n && !function
            && (t.kind(d) == "identifier"@ || t.kind(d) == "type_identifier"@ || t.kind(d) == "field_identifier"@ || t.kind(d) == "destructor_name"@ || t.kind(d) == "operator_name"@ || t.kind(d) == "qualified_identifier"@)
    } else if t.kind(d) == "function_declarator"@ {
        t.child(d, "declarator"@) matches Some(inner) && d < inner <= n && function
            && (introduces(t, inner, n, true) || introduces(t, inner, n, false))
    } else if t.kind(d) == "pointer_declarator"@ || t.kind(d) == "array_declarator"@
        || t.kind(d) == "init_declarator"@ {
        t.child(d, "declarator"@) matches Some(inner) && d < inner <= n
            && introduces(t, inner, n, function)
    } else if t.kind(d) == "attributed_declarator"@ {
        t.child(d, "declarator"@) is None && d + 1 < t.after(d) && d + 1 <= n
            && introduces(t, d + 1, n, function)
    } else if t.kind(d) == "parenthesized_declarator"@ || t.kind(d) == "reference_declarator"@
        || t.kind(d) == "variadic_declarator"@ {
        t.child(d, "declarator"@) is None
            && (t.kind(d + 1) == "("@ || t.kind(d + 1) == "&"@ || t.kind(d + 1) == "&&"@ || t.kind(d + 1) == "..."@)
            && t.after(d + 1) == d + 2 && d + 2 < t.after(d) && d + 2 <= n
            && introduces(t, d + 2, n, function)
    } else {
        false
    }
}

proof fn introduced_is_declared(t: Syntax, d: int, n: int, function: bool)
    requires
        t.has(d),
        introduces(t, d, n, function),
    ensures
        declared(t, d) == Some((called(t, n), function)),
    decreases n - d,
{
    is_name_kinds();
    declared_kinds();
    if d < n {
        if t.kind(d) == "attributed_declarator"@ {
            introduced_is_declared(t, d + 1, n, function);
            assert(declared_in(t, d + 1, t.after(d)) == declared(t, d + 1));
        } else if t.kind(d) == "parenthesized_declarator"@ || t.kind(d) == "reference_declarator"@
            || t.kind(d) == "variadic_declarator"@ {
            introduced_is_declared(t, d + 2, n, function);
            assert(t.child(d + 1, "declarator"@) is None);
            assert(declared_in(t, d + 2, d + 2) is None);
            assert(declared(t, d + 1) is None);
            assert(declared_in(t, d + 2, t.after(d)) == declared(t, d + 2));
            assert(declared_in(t, d + 1, t.after(d)) == declared_in(t, d + 2, t.after(d)));
        } else {
            let inner = t.child(d, "declarator"@)->0;
            if t.kind(d) == "function_declarator"@ {
                if introduces(t, inner, n, true) {
                    introduced_is_declared(t, inner, n, true);
                } else {
                    introduced_is_declared(t, inner, n, false);
                }
            } else {
                introduced_is_declared(t, inner, n, function);
            }
        }
    }
}

/// A function at the top of a C++ file, in a namespace or behind the parameters
/// of a template is defined under the name that its declarator introduces. It
/// is private where it is `static`.
pub proof fn functions_are_defined(
    t: Syntax,
    file: Seq<char>,
    found: Seq<Seq<CaptureView>>,
    on_self: Seq<Seq<CaptureView>>,
    on_receiver: Seq<Seq<CaptureView>>,
    i: int,
    d: int,
    n: int,
    function: bool,
)
    requires
        at_top(t, i),
        t.has(i),
        t.kind(i) == "function_definition"@,
        t.child(i, "declarator"@) == Some(d),
        introduces(t, d, n, function),
    ensures
        defines_as(
            facts_of(t, file, found, on_self, on_receiver),
            t,
            i,
            called(t, n),
            SymbolKind::Function,
            shown(t, i),
        ),
{
    defs_at_kinds();
    is_section_kinds();
    aggregate_kind_kinds();
    let c = context(t, file);
    let prefix = steps(t, file);
    let at = top_is_placed(c, prefix, i);
    introduced_is_declared(t, d, n, function);
    static_is_child(t, i);
    let x = defs_at(c, at, i)[0];
    assert(defs_at(c, at, i).contains(x));
    starts_with(
        facts_of(t, file, found, on_self, on_receiver).symbols,
        defs_in(c, prefix, 1, t.after(0)),
        x,
    );
}

/// A function stands in the namespaces of the file and in those that lie around
/// it.
pub proof fn functions_stand_in_namespaces(
    t: Syntax,
    file: Seq<char>,
    found: Seq<Seq<CaptureView>>,
    on_self: Seq<Seq<CaptureView>>,
    on_receiver: Seq<Seq<CaptureView>>,
    i: int,
    path: Seq<Seq<char>>,
    d: int,
    n: int,
    function: bool,
)
    requires
        lies_in(t, i, path),
        t.has(i),
        t.kind(i) == "function_definition"@,
        t.child(i, "declarator"@) == Some(d),
        introduces(t, d, n, function),
    ensures
        defines_under(
            facts_of(t, file, found, on_self, on_receiver),
            t,
            i,
            called(t, n),
            SymbolKind::Function,
            namespace_steps(namespaces_of(file) + path)
                + seq![DescriptorView::Method { name: called(t, n), disambiguator: Seq::empty() }],
        ),
{
    defs_at_kinds();
    is_section_kinds();
    aggregate_kind_kinds();
    let c = context(t, file);
    let prefix = steps(t, file);
    introduced_is_declared(t, d, n, function);
    let at = prefix + path;
    let x = defs_at(c, at, i)[0];
    assert(defs_at(c, at, i).contains(x));
    placed_lies_in(c, prefix, i, path, x);
    starts_with(
        facts_of(t, file, found, on_self, on_receiver).symbols,
        defs_in(c, prefix, 1, t.after(0)),
        x,
    );
}

/// A class stands in the namespaces of the file and in those that lie around
/// it.
pub proof fn classes_stand_in_namespaces(
    t: Syntax,
    file: Seq<char>,
    found: Seq<Seq<CaptureView>>,
    on_self: Seq<Seq<CaptureView>>,
    on_receiver: Seq<Seq<CaptureView>>,
    i: int,
    path: Seq<Seq<char>>,
    n: int,
    name: Seq<char>,
)
    requires
        lies_in(t, i, path),
        t.has(i),
        is_aggregate(t, i),
        t.child(i, "body"@) is Some,
        t.child(i, "name"@) == Some(n),
        is_called(t, n, name),
    ensures
        defines_under(
            facts_of(t, file, found, on_self, on_receiver),
            t,
            i,
            name,
            sort_of(t, i),
            namespace_steps(namespaces_of(file) + path) + seq![DescriptorView::Type(name)],
        ),
{
    defs_at_kinds();
    is_section_kinds();
    aggregate_kind_kinds();
    let c = context(t, file);
    let prefix = steps(t, file);
    called_is_leaf(t, n, name);
    let at = prefix + path;
    let x = defs_at(c, at, i)[0];
    assert(defs_at(c, at, i).contains(x));
    placed_lies_in(c, prefix, i, path, x);
    starts_with(
        facts_of(t, file, found, on_self, on_receiver).symbols,
        defs_in(c, prefix, 1, t.after(0)),
        x,
    );
}

/// Each name that such a declaration introduces is defined: as a function where
/// it is declared as one, as a static variable otherwise.
pub proof fn declarations_are_defined(
    t: Syntax,
    file: Seq<char>,
    found: Seq<Seq<CaptureView>>,
    on_self: Seq<Seq<CaptureView>>,
    on_receiver: Seq<Seq<CaptureView>>,
    i: int,
    d: int,
    n: int,
    function: bool,
)
    requires
        at_top(t, i),
        t.has(i),
        t.kind(i) == "declaration"@,
        t.has_child(i, d),
        t.in_field(d, "declarator"@),
        introduces(t, d, n, function),
    ensures
        defines_as(
            facts_of(t, file, found, on_self, on_receiver),
            t,
            i,
            called(t, n),
            (if function { SymbolKind::Function } else { SymbolKind::Static }),
            shown(t, i),
        ),
{
    defs_at_kinds();
    is_section_kinds();
    aggregate_kind_kinds();
    let c = context(t, file);
    let prefix = steps(t, file);
    let at = top_is_placed(c, prefix, i);
    reached_is_behind(t, i + 1, t.after(i), d);
    introduced_is_declared(t, d, n, function);
    static_is_child(t, i);
    let x = declarator_symbol(c, at, i, d)[0];
    assert(declarator_symbol(c, at, i, d).contains(x));
    declarators_in_has(c, at, i, i + 1, t.after(i), d, x);
    in_either(typed_aggregate(c, at, i), declarators_in(c, at, i, i + 1, t.after(i)), x);
    assert(defs_at(c, at, i).contains(x));
    starts_with(
        facts_of(t, file, found, on_self, on_receiver).symbols,
        defs_in(c, prefix, 1, t.after(0)),
        x,
    );
}

/// A function with the plain name `main` at the top of a C++ file is where the
/// program starts.
pub proof fn programs_start_at_main(
    t: Syntax,
    file: Seq<char>,
    found: Seq<Seq<CaptureView>>,
    on_self: Seq<Seq<CaptureView>>,
    on_receiver: Seq<Seq<CaptureView>>,
    i: int,
    d: int,
    n: int,
)
    requires
        at_top(t, i),
        t.has(i),
        t.kind(i) == "function_definition"@,
        t.child(i, "declarator"@) == Some(d),
        t.kind(d) == "function_declarator"@,
        t.child(d, "declarator"@) == Some(n),
        t.kind(n) == "identifier"@,
        t.text(n) == "main"@,
    ensures
        is_entered(
            facts_of(t, file, found, on_self, on_receiver),
            t,
            i,
            t.text(n),
            EntryPointView::Main,
        ),
{
    defs_at_kinds();
    is_section_kinds();
    aggregate_kind_kinds();
    is_name_kinds();
    declared_kinds();
    let c = context(t, file);
    let prefix = steps(t, file);
    let at = top_is_placed(c, prefix, i);
    assert(introduces(t, n, n, false));
    introduced_is_declared(t, n, n, false);
    assert(!qualified(t, n));
    assert(declared(t, d) == Some((t.text(n), true)));
    assert(!qualified(t, d));
    static_is_child(t, i);
    let x = defs_at(c, at, i)[0];
    assert(x.entry_points[0] == EntryPointView::Main);
    assert(defs_at(c, at, i).contains(x));
    starts_with(
        facts_of(t, file, found, on_self, on_receiver).symbols,
        defs_in(c, prefix, 1, t.after(0)),
        x,
    );
}

/// Each name that such a type definition introduces is a public alias.
pub proof fn type_names_are_defined(
    t: Syntax,
    file: Seq<char>,
    found: Seq<Seq<CaptureView>>,
    on_self: Seq<Seq<CaptureView>>,
    on_receiver: Seq<Seq<CaptureView>>,
    i: int,
    d: int,
    n: int,
    function: bool,
)
    requires
        at_top(t, i),
        t.has(i),
        t.kind(i) == "type_definition"@,
        t.has_child(i, d),
        t.in_field(d, "declarator"@),
        introduces(t, d, n, function),
    ensures
        defines_as(
            facts_of(t, file, found, on_self, on_receiver),
            t,
            i,
            called(t, n),
            SymbolKind::TypeAlias,
            Visibility::Public,
        ),
{
    defs_at_kinds();
    is_section_kinds();
    aggregate_kind_kinds();
    let c = context(t, file);
    let prefix = steps(t, file);
    let at = top_is_placed(c, prefix, i);
    reached_is_behind(t, i + 1, t.after(i), d);
    introduced_is_declared(t, d, n, function);
    let x = alias_symbols(c, at, i, Some(called(t, n)))[0];
    assert(alias_symbols(c, at, i, Some(called(t, n))).contains(x));
    typedefs_in_has(c, at, i, i + 1, t.after(i), d, x);
    in_either(typed_aggregate(c, at, i), typedefs_in(c, at, i, i + 1, t.after(i)), x);
    assert(defs_at(c, at, i).contains(x));
    starts_with(
        facts_of(t, file, found, on_self, on_receiver).symbols,
        defs_in(c, prefix, 1, t.after(0)),
        x,
    );
}

/// Such an alias declaration with a name is a public alias.
pub proof fn aliases_are_defined(
    t: Syntax,
    file: Seq<char>,
    found: Seq<Seq<CaptureView>>,
    on_self: Seq<Seq<CaptureView>>,
    on_receiver: Seq<Seq<CaptureView>>,
    i: int,
    n: int,
)
    requires
        at_top(t, i),
        t.has(i),
        t.kind(i) == "alias_declaration"@,
        t.child(i, "name"@) == Some(n),
    ensures
        defines_as(
            facts_of(t, file, found, on_self, on_receiver),
            t,
            i,
            t.text(n),
            SymbolKind::TypeAlias,
            Visibility::Public,
        ),
{
    defs_at_kinds();
    is_section_kinds();
    aggregate_kind_kinds();
    let c = context(t, file);
    let prefix = steps(t, file);
    let at = top_is_placed(c, prefix, i);
    let x = defs_at(c, at, i)[0];
    assert(defs_at(c, at, i).contains(x));
    starts_with(
        facts_of(t, file, found, on_self, on_receiver).symbols,
        defs_in(c, prefix, 1, t.after(0)),
        x,
    );
}

/// Such a macro is defined: as a constant where it takes no arguments, as a
/// function where it does.
pub proof fn macros_are_defined(
    t: Syntax,
    file: Seq<char>,
    found: Seq<Seq<CaptureView>>,
    on_self: Seq<Seq<CaptureView>>,
    on_receiver: Seq<Seq<CaptureView>>,
    i: int,
    n: int,
)
    requires
        at_top(t, i),
        t.has(i),
        t.kind(i) == "preproc_def"@ || t.kind(i) == "preproc_function_def"@,
        t.child(i, "name"@) == Some(n),
    ensures
        defines_as(
            facts_of(t, file, found, on_self, on_receiver),
            t,
            i,
            t.text(n),
            (if t.kind(i) == "preproc_def"@ { SymbolKind::Const } else { SymbolKind::Function }),
            Visibility::Public,
        ),
{
    defs_at_kinds();
    is_section_kinds();
    aggregate_kind_kinds();
    let c = context(t, file);
    let prefix = steps(t, file);
    let at = top_is_placed(c, prefix, i);
    let x = defs_at(c, at, i)[0];
    assert(defs_at(c, at, i).contains(x));
    starts_with(
        facts_of(t, file, found, on_self, on_receiver).symbols,
        defs_in(c, prefix, 1, t.after(0)),
        x,
    );
}

/// Whether the class name `n` is called `name`: by its text, by that of what a
/// template is made of, or by the last piece of a qualified name.
pub open spec fn is_called(t: Syntax, n: int, name: Seq<char>) -> bool {
    ||| t.kind(n) == "type_identifier"@ && name == t.text(n)
    ||| t.kind(n) == "template_type"@
        && (t.child(n, "name"@) matches Some(m) && t.kind(m) == "type_identifier"@ && name == t.text(m))
    ||| t.kind(n) == "qualified_identifier"@ && name == after_last_part(t.text(n), "::"@)
}

proof fn called_is_leaf(t: Syntax, n: int, name: Seq<char>)
    requires
        t.has(n),
        is_called(t, n, name),
    ensures
        leaf_name(t, n) == Some(name),
{
    leaf_name_kinds();
    if t.kind(n) == "template_type"@ {
        let m = t.child(n, "name"@)->0;
        assert(leaf_name(t, m) == Some(t.text(m)));
    }
}

/// What a class, a struct, a union or an enum is.
pub open spec fn sort_of(t: Syntax, i: int) -> SymbolKind {
    if t.kind(i) == "class_specifier"@ {
        SymbolKind::Class
    } else if t.kind(i) == "enum_specifier"@ {
        SymbolKind::Enum
    } else {
        SymbolKind::Struct
    }
}

/// What an access specifier makes visible.
pub open spec fn unveils(t: Syntax, a: int) -> Visibility {
    if has_prefix(t.text(a), "public"@) {
        Visibility::Public
    } else if has_prefix(t.text(a), "protected"@) {
        Visibility::Protected
    } else {
        Visibility::Private
    }
}

/// Whether a member of the class `owner` is seen so: as the last access specifier
/// before it says, or privately in a class and publicly elsewhere where there is
/// none.
pub open spec fn is_seen(t: Syntax, owner: int, body: int, m: int, visibility: Visibility) -> bool {
    ||| exists|a: int| #[trigger] t.has_child(body, a) && a < m && t.kind(a) == "access_specifier"@
        && visibility == unveils(t, a) && forall|b: int| #[trigger] t.has_child(body, b)
        && a < b < m
        ==> t.kind(b) != "access_specifier"@
    ||| (forall|b: int| #[trigger] t.has_child(body, b) && b < m ==> t.kind(b) != "access_specifier"@)
        && visibility == (if t.kind(owner) == "class_specifier"@ { Visibility::Private } else { Visibility::Public })
}

/// Whether node `i` is the member `m` of a body, or what the template `m` is made of.
pub open spec fn is_member(t: Syntax, body: int, m: int, i: int) -> bool {
    t.has_child(body, m) && t.kind(m) != "access_specifier"@
        && (i == m || (t.kind(m) == "template_declaration"@ && t.has_child(m, i) && is_pattern(t, i)))
}

/// Whether a node is a class with a name and a body that stands at the top of the file
/// or in a namespace, is the type of something that does, or is so placed in a
/// class that is.
pub open spec fn is_class(t: Syntax, i: int) -> bool
    decreases i,
{
    is_aggregate(t, i) && t.child(i, "body"@) is Some && (t.child(i, "name"@) matches Some(n) && exists|name: Seq<char>| #[trigger] is_called(t, n, name)) && {
        ||| at_top(t, i)
        ||| exists|d: int| #![trigger t.child(d, "type"@)] 0 < d < i && at_top(t, d)
            && (t.kind(d) == "declaration"@ || t.kind(d) == "type_definition"@)
            && t.child(d, "type"@) == Some(i)
        ||| exists|owner: int, body: int, m: int, d: int|
            #![trigger t.child(owner, "body"@), is_member(t, body, m, d)]
            0 < owner < body < m <= d <= i && is_class(t, owner)
                && t.kind(owner) != "enum_specifier"@ && t.child(owner, "body"@) == Some(body)
                && is_member(t, body, m, d)
                && (d == i || ((t.kind(d) == "field_declaration"@ || t.kind(d) == "declaration"@ || t.kind(d) == "type_definition"@) && t.child(d, "type"@) == Some(i)))
    }
}

proof fn member_is_among(
    c: Ctx,
    ns: Seq<Seq<char>>,
    name: Seq<char>,
    given: Visibility,
    lo: int,
    hi: int,
    m: int,
    visibility: Visibility,
    x: SymbolView,
)
    requires
        0 <= lo,
        hi <= c.tree.len(),
        c.tree.reaches(lo, hi, m),
        c.tree.kind(m) != "access_specifier"@,
        (exists|a: int| #[trigger] c.tree.reaches(lo, hi, a) && a < m && c.tree.kind(a) == "access_specifier"@ && visibility == unveils(c.tree, a) && forall|b: int| #[trigger] c.tree.reaches(lo, hi, b) && a < b < m ==> c.tree.kind(b) != "access_specifier"@)
            || ((forall|b: int| #[trigger] c.tree.reaches(lo, hi, b) && b < m ==> c.tree.kind(b) != "access_specifier"@) && visibility == given),
        member_at(c, ns, name, visibility, m).contains(x),
    ensures
        members_in(c, ns, name, given, lo, hi).contains(x),
    decreases hi - lo,
{
    let t = c.tree;
    let next = t.next(lo, hi);
    if lo == m {
        assert(visibility == given) by {
            if exists|a: int| #[trigger] t.reaches(lo, hi, a) && a < m
                && t.kind(a) == "access_specifier"@ && visibility == unveils(t, a)
                && forall|b: int| #[trigger] t.reaches(lo, hi, b) && a < b < m
                ==> t.kind(b) != "access_specifier"@ {
                let a = choose|a: int| #[trigger] t.reaches(lo, hi, a) && a < m
                    && t.kind(a) == "access_specifier"@ && visibility == unveils(t, a)
                    && forall|b: int| #[trigger] t.reaches(lo, hi, b) && a < b < m
                    ==> t.kind(b) != "access_specifier"@;
                reached_is_behind(t, lo, hi, a);
            }
        }
        in_either(member_at(c, ns, name, given, lo), members_in(c, ns, name, given, next, hi), x);
    } else {
        reached_is_behind(t, next, hi, m);
        let then = if t.kind(lo) == "access_specifier"@ { unveils(t, lo) } else { given };
        assert(t.reaches(lo, hi, lo));
        assert forall|b: int| #[trigger] t.reaches(next, hi, b) implies t.reaches(lo, hi, b) by {}
        if exists|a: int| #[trigger] t.reaches(next, hi, a) && a < m
            && t.kind(a) == "access_specifier"@ && visibility == unveils(t, a)
            && forall|b: int| #[trigger] t.reaches(next, hi, b) && a < b < m
            ==> t.kind(b) != "access_specifier"@ {
        } else if exists|a: int| #[trigger] t.reaches(lo, hi, a) && a < m && t.kind(a) == "access_specifier"@ && visibility == unveils(t, a) && forall|b: int| #[trigger] t.reaches(lo, hi, b) && a < b < m
            ==> t.kind(b) != "access_specifier"@ {
            let a = choose|a: int| #[trigger] t.reaches(lo, hi, a) && a < m
                && t.kind(a) == "access_specifier"@ && visibility == unveils(t, a)
                && forall|b: int| #[trigger] t.reaches(lo, hi, b) && a < b < m
                ==> t.kind(b) != "access_specifier"@;
            if a != lo {
                assert(t.reaches(next, hi, a));
                assert forall|b: int| #[trigger] t.reaches(next, hi, b) && a < b < m implies t.kind(b) != "access_specifier"@ by {
                    assert(t.reaches(lo, hi, b));
                }
            } else {
                assert forall|b: int| #[trigger] t.reaches(next, hi, b) && b < m implies t.kind(b) != "access_specifier"@ by {
                    reached_is_behind(t, next, hi, b);
                    assert(t.reaches(lo, hi, b));
                }
            }
        } else {
            assert forall|b: int| #[trigger] t.reaches(next, hi, b) && b < m implies t.kind(b) != "access_specifier"@ by {
                assert(t.reaches(lo, hi, b));
            }
        }
        member_is_among(c, ns, name, then, next, hi, m, visibility, x);
        if t.kind(lo) != "access_specifier"@ {
            in_either(
                member_at(c, ns, name, given, lo),
                members_in(c, ns, name, given, next, hi),
                x,
            );
        }
    }
}

/// How a member of a class is seen.
proof fn some_is_seen(
    t: Syntax,
    owner: int,
    body: int,
    m: int,
    from: int,
) -> (visibility: Visibility)
    requires
        from <= m,
        forall|b: int| #[trigger] t.has_child(body, b) && from <= b < m
            ==> t.kind(b) != "access_specifier"@,
    ensures
        is_seen(t, owner, body, m, visibility),
    decreases from,
{
    if from <= 0 || from <= body {
        assert forall|b: int| #[trigger] t.has_child(body, b) && b < m implies t.kind(b) != "access_specifier"@ by {
            reached_is_behind(t, body + 1, t.after(body), b);
        }
        if t.kind(owner) == "class_specifier"@ { Visibility::Private } else { Visibility::Public }
    } else if t.has_child(body, from - 1) && t.kind(from - 1) == "access_specifier"@ {
        unveils(t, from - 1)
    } else {
        some_is_seen(t, owner, body, m, from - 1)
    }
}

/// Where the members of a class are defined.
proof fn members_are_placed(
    c: Ctx,
    ns: Seq<Seq<char>>,
    owner: int,
    body: int,
    name: Seq<char>,
    m: int,
    i: int,
    visibility: Visibility,
) -> (at: (Seq<Seq<char>>, SymbolView))
    requires
        is_class(c.tree, owner),
        c.tree.kind(owner) != "enum_specifier"@,
        c.tree.child(owner, "body"@) == Some(body),
        c.tree.child(owner, "name"@) matches Some(n) && is_called(c.tree, n, name),
        is_member(c.tree, body, m, i),
        is_seen(c.tree, owner, body, m, visibility),
    ensures
        defs_in(c, ns, 1, c.tree.after(0)).contains(at.1),
        at.1.occ == occurrence_at(c.tree, c.file, owner),
        at.1.id == namespace_steps(at.0) + seq![DescriptorView::Type(name)],
        forall|x: SymbolView| #[trigger] member_at(c, at.0, name, visibility, i).contains(x)
            ==> defs_in(c, ns, 1, c.tree.after(0)).contains(x),
    decreases owner + 1,
{
    aggregate_kind_kinds();
    member_at_kinds();
    let t = c.tree;
    let n = t.child(owner, "name"@)->0;
    called_is_leaf(t, n, name);
    let (at, seen) = class_is_placed(c, ns, owner);
    let given = if t.kind(owner) == "class_specifier"@ { Visibility::Private } else { Visibility::Public };
    assert(aggregate_kind(t, owner) == Some((sort_of(t, owner), given)));
    reached_is_behind(t, body + 1, t.after(body), m);
    assert forall|x: SymbolView| #[trigger] member_at(c, at, name, visibility, i).contains(x) implies defs_in(c, ns, 1, t.after(0)).contains(x) by {
        if i != m {
            reached_is_behind(t, m + 1, t.after(m), i);
            templated_members_in_has(c, at, name, visibility, m + 1, t.after(m), i, x);
            assert(member_at(c, at, name, visibility, m) == templated_members_in(
                c,
                at,
                name,
                visibility,
                m + 1,
                t.after(m),
            ));
        }
        if exists|a: int| #[trigger] t.has_child(body, a) && a < m
            && t.kind(a) == "access_specifier"@ && visibility == unveils(t, a)
            && forall|b: int| #[trigger] t.has_child(body, b) && a < b < m
            ==> t.kind(b) != "access_specifier"@ {
            let a = choose|a: int| #[trigger] t.has_child(body, a) && a < m
                && t.kind(a) == "access_specifier"@ && visibility == unveils(t, a)
                && forall|b: int| #[trigger] t.has_child(body, b) && a < b < m
                ==> t.kind(b) != "access_specifier"@;
            assert(t.reaches(body + 1, t.after(body), a));
            assert forall|b: int| #[trigger] t.reaches(body + 1, t.after(body), b) && a < b < m implies t.kind(b) != "access_specifier"@ by {
                assert(t.has_child(body, b));
            }
        } else {
            assert forall|b: int| #[trigger] t.reaches(body + 1, t.after(body), b) && b < m implies t.kind(b) != "access_specifier"@ by {
                assert(t.has_child(body, b));
            }
        }
        member_is_among(c, at, name, given, body + 1, t.after(body), m, visibility, x);
        let own = aggregate_at(c, at, seen, owner);
        let first = seq![own[0]];
        assert(own =~= first + members_in(c, at, name, given, body + 1, t.after(body)));
        in_either(first, members_in(c, at, name, given, body + 1, t.after(body)), x);
        assert(aggregate_at(c, at, seen, owner).contains(x));
    }
    let outer = aggregate_at(c, at, seen, owner)[0];
    assert(aggregate_at(c, at, seen, owner).contains(outer));
    (at, outer)
}

/// Where a class is defined.
proof fn class_is_placed(c: Ctx, ns: Seq<Seq<char>>, i: int) -> (at: (Seq<Seq<char>>, Visibility))
    requires
        is_class(c.tree, i),
    ensures
        forall|x: SymbolView| #[trigger] aggregate_at(c, at.0, at.1, i).contains(x)
            ==> defs_in(c, ns, 1, c.tree.after(0)).contains(x),
    decreases i,
{
    aggregate_kind_kinds();
    defs_at_kinds();
    is_section_kinds();
    member_at_kinds();
    holds_types_kinds();
    let t = c.tree;
    if at_top(t, i) {
        let at = top_is_placed(c, ns, i);
        assert forall|x: SymbolView| #[trigger] aggregate_at(c, at, Visibility::Public, i).contains(x) implies defs_in(c, ns, 1, t.after(0)).contains(x) by {
            assert(defs_at(c, at, i).contains(x));
        }
        (at, Visibility::Public)
    } else if exists|d: int| #![trigger t.child(d, "type"@)] 0 < d < i && at_top(t, d)
        && (t.kind(d) == "declaration"@ || t.kind(d) == "type_definition"@)
        && t.child(d, "type"@) == Some(i) {
        let d = choose|d: int| #![trigger t.child(d, "type"@)] 0 < d < i && at_top(t, d)
            && (t.kind(d) == "declaration"@ || t.kind(d) == "type_definition"@)
            && t.child(d, "type"@) == Some(i);
        let at = top_is_placed(c, ns, d);
        assert forall|x: SymbolView| #[trigger] aggregate_at(c, at, Visibility::Public, i).contains(x) implies defs_in(c, ns, 1, t.after(0)).contains(x) by {
            in_either(typed_aggregate(c, at, d), declarators_in(c, at, d, d + 1, t.after(d)), x);
            in_either(typed_aggregate(c, at, d), typedefs_in(c, at, d, d + 1, t.after(d)), x);
            assert(defs_at(c, at, d).contains(x));
        }
        (at, Visibility::Public)
    } else {
        let (owner, body, m, d) = choose|owner: int, body: int, m: int, d: int|
            #![trigger t.child(owner, "body"@), is_member(t, body, m, d)]
            0 < owner < body < m <= d <= i && is_class(t, owner)
                && t.kind(owner) != "enum_specifier"@ && t.child(owner, "body"@) == Some(body)
                && is_member(t, body, m, d)
                && (d == i || ((t.kind(d) == "field_declaration"@ || t.kind(d) == "declaration"@ || t.kind(d) == "type_definition"@) && t.child(d, "type"@) == Some(i)));
        let n = t.child(owner, "name"@)->0;
        let name = choose|name: Seq<char>| #[trigger] is_called(t, n, name);
        let visibility = some_is_seen(t, owner, body, m, m);
        let (outer, class) = members_are_placed(c, ns, owner, body, name, m, d, visibility);
        let at = outer + seq![name];
        let prefix = namespace_steps(outer) + seq![DescriptorView::Type(name)];
        reached_is_behind(t, body + 1, t.after(body), m);
        if d != m {
            reached_is_behind(t, m + 1, t.after(m), d);
        }
        assert forall|x: SymbolView| #[trigger] aggregate_at(c, at, visibility, i).contains(x) implies defs_in(c, ns, 1, t.after(0)).contains(x) by {
            if d != i {
                in_either(
                    aggregate_at(c, at, visibility, i),
                    member_symbols(c, prefix, visibility, d),
                    x,
                );
            }
            assert(member_at(c, outer, name, visibility, d).contains(x));
        }
        (at, visibility)
    }
}

/// A class, a struct, a union or an enum with a name and a body is defined
/// wherever it is placed, a union as a struct.
pub proof fn classes_are_defined(
    t: Syntax,
    file: Seq<char>,
    found: Seq<Seq<CaptureView>>,
    on_self: Seq<Seq<CaptureView>>,
    on_receiver: Seq<Seq<CaptureView>>,
    i: int,
    n: int,
    name: Seq<char>,
)
    requires
        is_class(t, i),
        t.has(i),
        t.child(i, "name"@) == Some(n),
        is_called(t, n, name),
    ensures
        defines(facts_of(t, file, found, on_self, on_receiver), t, i, name, sort_of(t, i)),
{
    aggregate_kind_kinds();
    let c = context(t, file);
    let prefix = steps(t, file);
    called_is_leaf(t, n, name);
    let (at, seen) = class_is_placed(c, prefix, i);
    let x = aggregate_at(c, at, seen, i)[0];
    assert(aggregate_at(c, at, seen, i).contains(x));
    starts_with(
        facts_of(t, file, found, on_self, on_receiver).symbols,
        defs_in(c, prefix, 1, t.after(0)),
        x,
    );
}

/// Each name that a member of a class introduces is defined as it is seen: as
/// an alias in a type definition, as a method where it is defined or declared
/// as a function, as a static variable otherwise.
pub proof fn members_are_defined(
    t: Syntax,
    file: Seq<char>,
    found: Seq<Seq<CaptureView>>,
    on_self: Seq<Seq<CaptureView>>,
    on_receiver: Seq<Seq<CaptureView>>,
    owner: int,
    name: Seq<char>,
    body: int,
    m: int,
    i: int,
    visibility: Visibility,
    d: int,
    n: int,
    function: bool,
)
    requires
        is_class(t, owner),
        t.kind(owner) != "enum_specifier"@,
        t.child(owner, "body"@) == Some(body),
        t.child(owner, "name"@) matches Some(cn) && is_called(t, cn, name),
        is_member(t, body, m, i),
        is_seen(t, owner, body, m, visibility),
        t.has(i),
        t.kind(i) == "function_definition"@ || t.kind(i) == "field_declaration"@
            || t.kind(i) == "declaration"@ || t.kind(i) == "type_definition"@,
        t.has_child(i, d),
        t.in_field(d, "declarator"@),
        introduces(t, d, n, function),
    ensures
        defines_as(
            facts_of(t, file, found, on_self, on_receiver),
            t,
            i,
            called(t, n),
            (if t.kind(i) == "type_definition"@ { SymbolKind::TypeAlias } else if function || t.kind(i) == "function_definition"@ { SymbolKind::Method } else { SymbolKind::Static }),
            visibility,
        ),
        defines_in(
            facts_of(t, file, found, on_self, on_receiver),
            t,
            owner,
            i,
            called(t, n),
            (if t.kind(i) == "type_definition"@ { SymbolKind::TypeAlias } else if function || t.kind(i) == "function_definition"@ { SymbolKind::Method } else { SymbolKind::Static }),
        ),
{
    aggregate_kind_kinds();
    member_at_kinds();
    is_section_kinds();
    holds_types_kinds();
    member_symbol_kinds();
    member_symbols_kinds();
    let c = context(t, file);
    let prefix = steps(t, file);
    let (at, outer) = members_are_placed(c, prefix, owner, body, name, m, i, visibility);
    let own = namespace_steps(at) + seq![DescriptorView::Type(name)];
    reached_is_behind(t, i + 1, t.after(i), d);
    introduced_is_declared(t, d, n, function);
    let x = member_symbol(c, own, visibility, i, d)[0];
    assert(member_symbol(c, own, visibility, i, d).contains(x));
    member_declarators_in_has(c, own, visibility, i, i + 1, t.after(i), d, x);
    let before = match t.child(i, "type"@) {
        Some(ty) => aggregate_at(c, at + seq![name], visibility, ty),
        None => Seq::empty(),
    };
    in_either(before, member_symbols(c, own, visibility, i), x);
    assert(member_at(c, at, name, visibility, i).contains(x));
    starts_with(
        facts_of(t, file, found, on_self, on_receiver).symbols,
        defs_in(c, prefix, 1, t.after(0)),
        x,
    );
    starts_with(
        facts_of(t, file, found, on_self, on_receiver).symbols,
        defs_in(c, prefix, 1, t.after(0)),
        outer,
    );
    assert(x.id =~= outer.id.push(x.id.last()));
}

/// Each alias declaration with a name in a class is defined as it is seen.
pub proof fn member_aliases_are_defined(
    t: Syntax,
    file: Seq<char>,
    found: Seq<Seq<CaptureView>>,
    on_self: Seq<Seq<CaptureView>>,
    on_receiver: Seq<Seq<CaptureView>>,
    owner: int,
    name: Seq<char>,
    body: int,
    m: int,
    i: int,
    visibility: Visibility,
    n: int,
)
    requires
        is_class(t, owner),
        t.kind(owner) != "enum_specifier"@,
        t.child(owner, "body"@) == Some(body),
        t.child(owner, "name"@) matches Some(cn) && is_called(t, cn, name),
        is_member(t, body, m, i),
        is_seen(t, owner, body, m, visibility),
        t.has(i),
        t.kind(i) == "alias_declaration"@,
        t.child(i, "name"@) == Some(n),
    ensures
        defines_as(
            facts_of(t, file, found, on_self, on_receiver),
            t,
            i,
            t.text(n),
            SymbolKind::TypeAlias,
            visibility,
        ),
        defines_in(
            facts_of(t, file, found, on_self, on_receiver),
            t,
            owner,
            i,
            t.text(n),
            SymbolKind::TypeAlias,
        ),
{
    aggregate_kind_kinds();
    member_at_kinds();
    is_section_kinds();
    holds_types_kinds();
    member_symbol_kinds();
    member_symbols_kinds();
    let c = context(t, file);
    let prefix = steps(t, file);
    let (at, outer) = members_are_placed(c, prefix, owner, body, name, m, i, visibility);
    let own = namespace_steps(at) + seq![DescriptorView::Type(name)];
    let x = member_symbols(c, own, visibility, i)[0];
    assert(member_symbols(c, own, visibility, i).contains(x));
    assert(member_at(c, at, name, visibility, i).contains(x));
    starts_with(
        facts_of(t, file, found, on_self, on_receiver).symbols,
        defs_in(c, prefix, 1, t.after(0)),
        x,
    );
    starts_with(
        facts_of(t, file, found, on_self, on_receiver).symbols,
        defs_in(c, prefix, 1, t.after(0)),
        outer,
    );
    assert(x.id =~= outer.id.push(x.id.last()));
}

/// A class or a struct implements each of its bases.
pub proof fn bases_are_implemented(
    t: Syntax,
    file: Seq<char>,
    found: Seq<Seq<CaptureView>>,
    on_self: Seq<Seq<CaptureView>>,
    on_receiver: Seq<Seq<CaptureView>>,
    i: int,
    clause: int,
    n: int,
)
    requires
        t.nested(),
        0 <= i < t.after(0),
        t.kind(i) == "class_specifier"@ || t.kind(i) == "struct_specifier"@,
        t.child_of_kind(i, "base_class_clause"@) == Some(clause),
        t.has_child(clause, n),
        t.kind(n) == "type_identifier"@ || t.kind(n) == "qualified_identifier"@
            || t.kind(n) == "template_type"@,
    ensures
        refers(
            facts_of(t, file, found, on_self, on_receiver),
            t,
            n,
            simple_name(t.text(n), "::"@),
            RefRole::IsImplementation,
        ),
{
    let b = reference_at(t, file, n, simple_name(t.text(n), "::"@), RefRole::IsImplementation);
    assert(base_of(t, file, n)[0] == b);
    bases_in_has(t, file, clause + 1, t.after(clause), n, b);
    let x = reference_at(t, file, n, simple_name(t.text(n), "::"@), RefRole::IsImplementation);
    inherits_reported(t, file, found, on_self, on_receiver, i, x);
}

/// An assignment, whatever its operator, writes the identifier on its left.
pub proof fn assignments_write(
    t: Syntax,
    file: Seq<char>,
    found: Seq<Seq<CaptureView>>,
    on_self: Seq<Seq<CaptureView>>,
    on_receiver: Seq<Seq<CaptureView>>,
    i: int,
    left: int,
)
    requires
        t.nested(),
        0 <= i < t.after(0),
        t.kind(i) == "assignment_expression"@,
        t.child(i, "left"@) == Some(left),
        t.kind(left) == "identifier"@,
        long_enough(t.text(left)),
    ensures
        refers(
            facts_of(t, file, found, on_self, on_receiver),
            t,
            left,
            t.text(left),
            RefRole::Write,
        ),
{
    let x = reference_at(t, file, left, t.text(left), RefRole::Write);
    assert(write_of(t, file, i)[0] == x);
    writes_reported(t, file, found, on_self, on_receiver, i, x);
}

/// An identifier is read unless it is called, assigned to, introduced by a
/// declarator, a field that is accessed or the end of a qualified name.
pub proof fn values_are_read(
    t: Syntax,
    file: Seq<char>,
    found: Seq<Seq<CaptureView>>,
    on_self: Seq<Seq<CaptureView>>,
    on_receiver: Seq<Seq<CaptureView>>,
    i: int,
    p: int,
)
    requires
        t.nested(),
        0 <= i < t.after(0),
        t.kind(i) == "identifier"@,
        long_enough(t.text(i)),
        t.parent(i) == Some(p),
        !(t.in_field(i, "function"@) && t.kind(p) == "call_expression"@),
        !(t.in_field(i, "left"@) && t.kind(p) == "assignment_expression"@),
        !(t.in_field(i, "name"@) && t.kind(p) == "qualified_identifier"@),
        !(t.in_field(i, "field"@) && t.kind(p) == "field_expression"@),
        !t.in_field(i, "declarator"@),
        t.kind(p) != "reference_declarator"@,
        t.kind(p) != "attributed_declarator"@,
        t.kind(p) != "parenthesized_declarator"@,
        t.kind(p) != "variadic_declarator"@,
        t.kind(p) != "structured_binding_declarator"@,
        forall|j: int, k: int| t.has(j) && t.kind(j) == "identifier"@
            && j < k < #[trigger] t.after(j)
            ==> #[trigger] t.kind(k) != "identifier"@,
    ensures
        refers(facts_of(t, file, found, on_self, on_receiver), t, i, t.text(i), RefRole::Read),
{
    child_stands_in_field(t, p, "function"@);
    child_stands_in_field(t, p, "left"@);
    child_stands_in_field(t, p, "name"@);
    child_stands_in_field(t, p, "field"@);
    let x = reference_at(t, file, i, t.text(i), RefRole::Read);
    assert(read_of(t, file, i)[0] == x);
    reads_reported(t, file, found, on_self, on_receiver, i, x);
}

/// Whether the type `i` at a position leads to the type name `n` at the position
/// `at`: it is that name, or the end of a qualified name or what a template is made
/// of leads there. What stands between brackets is an argument.
pub open spec fn leads_to(
    t: Syntax,
    i: int,
    position: TypeRefContext,
    n: int,
    at: TypeRefContext,
) -> bool
    decreases n - i,
{
    if i >= n {
        i == n && t.kind(i) == "type_identifier"@ && position == at
    } else if t.kind(i) == "qualified_identifier"@ {
        t.child(i, "name"@) matches Some(c) && i < c <= n && leads_to(t, c, position, n, at)
    } else if t.kind(i) == "template_type"@ {
        ||| t.child(i, "name"@) == Some(n) && t.kind(n) == "type_identifier"@ && position == at
        ||| exists|list: int, a: int|
            #![trigger t.has_child(i, list), t.has_child(list, a)]
            t.has_child(i, list) && t.kind(list) == "template_argument_list"@ && t.has_child(list, a) && i < a <= n && {
                ||| t.kind(a) == "type_descriptor"@
                    && (t.child(a, "type"@) matches Some(c) && i < c <= n && leads_to(t, c, TypeRefContext::GenericArg, n, at))
                ||| (t.kind(a) == "type_identifier"@ || t.kind(a) == "qualified_identifier"@ || t.kind(a) == "template_type"@)
                    && leads_to(t, a, TypeRefContext::GenericArg, n, at)
            }
    } else {
        false
    }
}

proof fn leaves_are_found(
    t: Syntax,
    file: Seq<char>,
    i: int,
    position: TypeRefContext,
    n: int,
    at: TypeRefContext,
)
    requires
        t.has(i),
        leads_to(t, i, position, n, at),
    ensures
        leaves_at(t, file, position, i).contains(type_reference_at(t, file, n, t.text(n), at)),
    decreases n - i,
{
    leaves_at_kinds();
    template_args_in_kinds();
    let x = type_reference_at(t, file, n, t.text(n), at);
    if i >= n {
        assert(leaves_at(t, file, position, i)[0] == x);
    } else if t.kind(i) == "qualified_identifier"@ {
        leaves_are_found(t, file, t.child(i, "name"@)->0, position, n, at);
    } else {
        let own = match t.child(i, "name"@) {
            Some(m) => match leaf_name(t, m) {
                Some(name) => seq![type_reference_at(t, file, m, name, position)],
                None => Seq::empty(),
            },
            None => Seq::empty(),
        };
        let arguments = template_lists_in(t, file, i + 1, t.after(i));
        if t.child(i, "name"@) == Some(n) && t.kind(n) == "type_identifier"@ && position == at {
            assert(leaf_name(t, n) == Some(t.text(n)));
            assert(own[0] == x);
        } else {
            let (list, a) = choose|list: int, a: int|
                #![trigger t.has_child(i, list), t.has_child(list, a)]
                t.has_child(i, list) && t.kind(list) == "template_argument_list"@ && t.has_child(list, a) && i < a <= n && {
                    ||| t.kind(a) == "type_descriptor"@
                        && (t.child(a, "type"@) matches Some(c) && i < c <= n && leads_to(t, c, TypeRefContext::GenericArg, n, at))
                    ||| (t.kind(a) == "type_identifier"@ || t.kind(a) == "qualified_identifier"@ || t.kind(a) == "template_type"@)
                        && leads_to(t, a, TypeRefContext::GenericArg, n, at)
                };
            reached_is_behind(t, i + 1, t.after(i), list);
            reached_is_behind(t, list + 1, t.after(list), a);
            if t.kind(a) == "type_descriptor"@ {
                leaves_are_found(
                    t,
                    file,
                    t.child(a, "type"@)->0,
                    TypeRefContext::GenericArg,
                    n,
                    at,
                );
            } else {
                leaves_are_found(t, file, a, TypeRefContext::GenericArg, n, at);
            }
            template_args_in_has(t, file, list + 1, t.after(list), a, x);
            template_lists_in_has(t, file, i + 1, t.after(i), list, x);
        }
        in_either(own, arguments, x);
    }
}

/// A function refers to the type names that its result leads to, a parameter
/// and a field to those that theirs lead to.
pub proof fn types_are_referred_to(
    t: Syntax,
    file: Seq<char>,
    found: Seq<Seq<CaptureView>>,
    on_self: Seq<Seq<CaptureView>>,
    on_receiver: Seq<Seq<CaptureView>>,
    i: int,
    ty: int,
    position: TypeRefContext,
    n: int,
    at: TypeRefContext,
)
    requires
        t.nested(),
        0 <= i < t.after(0),
        (t.kind(i) == "function_definition"@ && position == TypeRefContext::ReturnType)
            || ((t.kind(i) == "parameter_declaration"@ || t.kind(i) == "optional_parameter_declaration"@) && position == TypeRefContext::ParameterType)
            || (t.kind(i) == "field_declaration"@ && position == TypeRefContext::Field),
        t.child(i, "type"@) == Some(ty),
        leads_to(t, ty, position, n, at),
    ensures
        refers_to_type(facts_of(t, file, found, on_self, on_receiver), t, n, t.text(n), at),
{
    typed_place_kinds();
    leaves_are_found(t, file, ty, position, n, at);
    let x = type_reference_at(t, file, n, t.text(n), at);
    type_refs_reported(t, file, found, on_self, on_receiver, i, x);
}

/// Whether the innermost scope at a byte is that of a function or a block.
pub open spec fn in_function(scopes: Seq<Scope>, byte: int) -> bool {
    exists|id: ScopeId| #[trigger] is_innermost(scopes, byte, id) && id < scopes.len()
        && scopes[id as int].span.start <= byte < scopes[id as int].span.end
        && (scopes[id as int].kind == ScopeKind::Function || scopes[id as int].kind == ScopeKind::Block)
}

proof fn function_is_code(scopes: Seq<Scope>, byte: int)
    requires
        scopes.len() <= usize::MAX,
        in_function(scopes, byte),
    ensures
        in_code(scopes, byte),
{
    home_is_innermost(scopes, byte);
    let id = choose|id: ScopeId| #[trigger] is_innermost(scopes, byte, id) && id < scopes.len()
        && scopes[id as int].span.start <= byte < scopes[id as int].span.end
        && (scopes[id as int].kind == ScopeKind::Function || scopes[id as int].kind == ScopeKind::Block);
    holder_is_found(scopes, byte, id as int);
    let home = home_scope(scopes, byte);
    assert(id == home) by {
        if id < home {
            assert(home < scopes.len());
            assert(scopes[home as int].span.start <= byte < scopes[home as int].span.end);
        } else if home < id {
            assert(scopes[id as int].span.start <= byte < scopes[id as int].span.end);
        }
    }
}

proof fn bindings_reach(t: Syntax, scopes: Seq<Scope>, i: int, j: int, x: BindingView)
    requires
        t.nested(),
        t.has(i),
        i <= j < t.after(i),
        bindings_at(t, scopes, j).contains(x),
    ensures
        bindings_at(t, scopes, i).contains(x),
    decreases t.left(i), 0nat,
{
    if i != j {
        if t.kind(i) == "declaration"@ {
            declaration_parts_reach(t, scopes, i, i + 1, t.after(i), j, x);
        } else {
            bindings_reach_in(t, scopes, i + 1, t.after(i), j, x);
            in_either(introduced(t, scopes, i), bindings_in(t, scopes, i + 1, t.after(i)), x);
        }
    }
}

proof fn bindings_reach_in(t: Syntax, scopes: Seq<Scope>, lo: int, hi: int, j: int, x: BindingView)
    requires
        t.nested(),
        t.closed_range(lo, hi),
        lo <= j < hi,
        bindings_at(t, scopes, j).contains(x),
    ensures
        bindings_in(t, scopes, lo, hi).contains(x),
    decreases t.left(lo), 1nat,
{
    if j < t.after(lo) {
        bindings_reach(t, scopes, lo, j, x);
    } else {
        bindings_reach_in(t, scopes, t.next(lo, hi), hi, j, x);
    }
    in_either(bindings_at(t, scopes, lo), bindings_in(t, scopes, t.next(lo, hi), hi), x);
}

proof fn declaration_parts_reach(
    t: Syntax,
    scopes: Seq<Scope>,
    owner: int,
    lo: int,
    hi: int,
    j: int,
    x: BindingView,
)
    requires
        t.nested(),
        t.closed_range(lo, hi),
        lo <= j < hi,
        bindings_at(t, scopes, j).contains(x),
    ensures
        declaration_parts_in(t, scopes, owner, lo, hi).contains(x),
    decreases t.left(lo), 1nat,
{
    let own = if t.in_field(lo, "declarator"@) { local_at(t, scopes, typed_name(t, owner), lo) } else { Seq::empty() };
    let rest = declaration_parts_in(t, scopes, owner, t.next(lo, hi), hi);
    if j < t.after(lo) {
        bindings_reach(t, scopes, lo, j, x);
    } else {
        declaration_parts_reach(t, scopes, owner, t.next(lo, hi), hi, j, x);
    }
    in_either(own, bindings_at(t, scopes, lo), x);
    in_either(own + bindings_at(t, scopes, lo), rest, x);
}

proof fn declared_is_among(
    t: Syntax,
    scopes: Seq<Scope>,
    owner: int,
    lo: int,
    hi: int,
    d: int,
    x: BindingView,
)
    requires
        0 <= lo,
        hi <= t.len(),
        t.reaches(lo, hi, d),
        t.in_field(d, "declarator"@),
        local_at(t, scopes, typed_name(t, owner), d).contains(x),
    ensures
        declaration_parts_in(t, scopes, owner, lo, hi).contains(x),
    decreases hi - lo,
{
    let own = if t.in_field(lo, "declarator"@) { local_at(t, scopes, typed_name(t, owner), lo) } else { Seq::empty() };
    let rest = declaration_parts_in(t, scopes, owner, t.next(lo, hi), hi);
    if lo != d {
        declared_is_among(t, scopes, owner, t.next(lo, hi), hi, d, x);
    }
    in_either(own, bindings_at(t, scopes, lo), x);
    in_either(own + bindings_at(t, scopes, lo), rest, x);
}

proof fn bindings_reported(
    t: Syntax,
    file: Seq<char>,
    found: Seq<Seq<CaptureView>>,
    on_self: Seq<Seq<CaptureView>>,
    on_receiver: Seq<Seq<CaptureView>>,
    i: int,
    b: BindingView,
)
    requires
        t.nested(),
        0 <= i < t.after(0),
        bindings_at(t, facts_of(t, file, found, on_self, on_receiver).scopes, i).contains(b),
    ensures
        facts_of(t, file, found, on_self, on_receiver).bindings.contains(b),
{
    bindings_reach(t, facts_of(t, file, found, on_self, on_receiver).scopes, 0, i, b);
    starts_with(
        facts_of(t, file, found, on_self, on_receiver).bindings,
        bindings_at(t, facts_of(t, file, found, on_self, on_receiver).scopes, 0),
        b,
    );
}

/// Whether the declarator `d` comes to the function declarator `f`.
pub open spec fn comes_to(t: Syntax, d: int, f: int) -> bool
    decreases f - d,
{
    if d >= f {
        d == f && t.kind(d) == "function_declarator"@
    } else {
        t.kind(d) != "function_declarator"@
            && (t.child(d, "declarator"@) matches Some(inner) && d < inner <= f && comes_to(t, inner, f))
    }
}

proof fn function_is_found(t: Syntax, d: int, f: int)
    requires
        t.has(d),
        comes_to(t, d, f),
    ensures
        function_declarator(t, d) == Some(f),
    decreases f - d,
{
    if d < f {
        function_is_found(t, t.child(d, "declarator"@)->0, f);
    }
}

proof fn plain_is_not_unpacked(t: Syntax, d: int, n: int, function: bool)
    requires
        t.has(d),
        introduces(t, d, n, function),
        t.kind(d) != "reference_declarator"@,
        forall|k: int| d <= k <= n
            ==> #[trigger] t.kind(k) != "reference_declarator"@
                && t.kind(k) != "structured_binding_declarator"@,
        t.child(n, "declarator"@) is None,
    ensures
        unpacked(t, d) is None,
    decreases n - d,
{
    if d < n {
        if let Some(inner) = t.child(d, "declarator"@) {
            if t.kind(d) == "function_declarator"@ {
                if introduces(t, inner, n, true) {
                    plain_is_not_unpacked(t, inner, n, true);
                } else {
                    plain_is_not_unpacked(t, inner, n, false);
                }
            } else if t.kind(d) == "pointer_declarator"@ || t.kind(d) == "array_declarator"@
                || t.kind(d) == "init_declarator"@ {
                plain_is_not_unpacked(t, inner, n, function);
            }
        }
    }
}

/// Each parameter with a name of a function or a lambda expression is bound in
/// the innermost scope at its declarator. It has the type that it is declared
/// with.
pub proof fn parameters_are_bound(
    t: Syntax,
    file: Seq<char>,
    found: Seq<Seq<CaptureView>>,
    on_self: Seq<Seq<CaptureView>>,
    on_receiver: Seq<Seq<CaptureView>>,
    i: int,
    d: int,
    f: int,
    list: int,
    p: int,
    e: int,
    n: int,
    function: bool,
)
    requires
        t.nested(),
        0 <= i < t.after(0),
        t.child(i, "declarator"@) == Some(d),
        (t.kind(i) == "function_definition"@ && comes_to(t, d, f))
            || (t.kind(i) == "lambda_expression"@ && f == d),
        t.child(f, "parameters"@) == Some(list),
        t.has_child(list, p),
        t.kind(p) == "parameter_declaration"@ || t.kind(p) == "optional_parameter_declaration"@
            || t.kind(p) == "variadic_parameter_declaration"@,
        t.child(p, "declarator"@) == Some(e),
        introduces(t, e, n, function),
        facts_of(t, file, found, on_self, on_receiver).scopes.len() <= usize::MAX,
    ensures
        binds(
            facts_of(t, file, found, on_self, on_receiver),
            called(t, n),
            t.start(e),
            BindingKind::Param,
        ),
        forall|ty: Seq<char>| t.child(p, "type"@) is Some
            && #[trigger] is_called(t, t.child(p, "type"@)->0, ty)
            ==> binds_as(
                facts_of(t, file, found, on_self, on_receiver),
                called(t, n),
                t.start(e),
                BindingKind::Param,
                ty,
            ),
{
    introduced_kinds();
    bindings_at_kinds();
    let b = local_binding(
        facts_of(t, file, found, on_self, on_receiver).scopes,
        called(t, n),
        t.start(e),
        BindingKind::Param,
        typed_name(t, p),
    );
    if t.kind(i) == "function_definition"@ {
        function_is_found(t, d, f);
    }
    reached_is_behind(t, list + 1, t.after(list), p);
    introduced_is_declared(t, e, n, function);
    assert(param_at(t, facts_of(t, file, found, on_self, on_receiver).scopes, p)[0] == b);
    params_in_has(
        t,
        facts_of(t, file, found, on_self, on_receiver).scopes,
        list + 1,
        t.after(list),
        p,
        b,
    );
    in_either(
        introduced(t, facts_of(t, file, found, on_self, on_receiver).scopes, i),
        bindings_in(t, facts_of(t, file, found, on_self, on_receiver).scopes, i + 1, t.after(i)),
        b,
    );
    let scopes = facts_of(t, file, found, on_self, on_receiver).scopes;
    let x = local_binding(scopes, called(t, n), t.start(e), BindingKind::Param, typed_name(t, p));
    bindings_reported(t, file, found, on_self, on_receiver, i, x);
    local_is_bound(
        facts_of(t, file, found, on_self, on_receiver),
        called(t, n),
        t.start(e),
        BindingKind::Param,
        typed_name(t, p),
    );
    assert forall|ty: Seq<char>| t.child(p, "type"@) is Some && #[trigger] is_called(t, t.child(p, "type"@)->0, ty) implies binds_as(facts_of(t, file, found, on_self, on_receiver), called(t, n), t.start(e), BindingKind::Param, ty) by {
        called_is_leaf(t, t.child(p, "type"@)->0, ty);
    }
}

/// Each name that a declaration inside a function introduces, or that a loop
/// over a range does, is bound in the innermost scope at its declarator. It has
/// the type that it is declared with.
pub proof fn locals_are_bound(
    t: Syntax,
    file: Seq<char>,
    found: Seq<Seq<CaptureView>>,
    on_self: Seq<Seq<CaptureView>>,
    on_receiver: Seq<Seq<CaptureView>>,
    i: int,
    d: int,
    n: int,
    function: bool,
)
    requires
        t.nested(),
        0 <= i < t.after(0),
        (t.kind(i) == "declaration"@ && t.has_child(i, d) && t.in_field(d, "declarator"@))
            || (t.kind(i) == "for_range_loop"@ && t.child(i, "declarator"@) == Some(d)),
        introduces(t, d, n, function),
        forall|k: int| d <= k <= n
            ==> #[trigger] t.kind(k) != "reference_declarator"@
                && t.kind(k) != "structured_binding_declarator"@,
        t.child(n, "declarator"@) is None,
        in_function(facts_of(t, file, found, on_self, on_receiver).scopes, t.start(d)),
        facts_of(t, file, found, on_self, on_receiver).scopes.len() <= usize::MAX,
    ensures
        binds(
            facts_of(t, file, found, on_self, on_receiver),
            called(t, n),
            t.start(d),
            BindingKind::Local,
        ),
        forall|ty: Seq<char>| t.kind(i) == "declaration"@ && t.child(i, "type"@) is Some
            && #[trigger] is_called(t, t.child(i, "type"@)->0, ty)
            ==> binds_as(
                facts_of(t, file, found, on_self, on_receiver),
                called(t, n),
                t.start(d),
                BindingKind::Local,
                ty,
            ),
{
    introduced_kinds();
    bindings_at_kinds();
    let scopes = facts_of(t, file, found, on_self, on_receiver).scopes;
    let ty = if t.kind(i) == "declaration"@ { typed_name(t, i) } else { None };
    let b = local_binding(scopes, called(t, n), t.start(d), BindingKind::Local, ty);
    if t.kind(i) == "declaration"@ {
        reached_is_behind(t, i + 1, t.after(i), d);
    }
    introduced_is_declared(t, d, n, function);
    assert(t.kind(d) != "reference_declarator"@);
    plain_is_not_unpacked(t, d, n, function);
    function_is_code(scopes, t.start(d));
    assert(local_at(t, scopes, ty, d)[0] == b);
    if t.kind(i) == "declaration"@ {
        declared_is_among(t, scopes, i, i + 1, t.after(i), d, b);
    } else {
        in_either(introduced(t, scopes, i), bindings_in(t, scopes, i + 1, t.after(i)), b);
    }
    let scopes = facts_of(t, file, found, on_self, on_receiver).scopes;
    let x = local_binding(
        scopes,
        called(t, n),
        t.start(d),
        BindingKind::Local,
        if t.kind(i) == "declaration"@ { typed_name(t, i) } else { None },
    );
    bindings_reported(t, file, found, on_self, on_receiver, i, x);
    local_is_bound(
        facts_of(t, file, found, on_self, on_receiver),
        called(t, n),
        t.start(d),
        BindingKind::Local,
        if t.kind(i) == "declaration"@ { typed_name(t, i) } else { None },
    );
    assert forall|ty: Seq<char>| t.kind(i) == "declaration"@ && t.child(i, "type"@) is Some && #[trigger] is_called(t, t.child(i, "type"@)->0, ty) implies binds_as(facts_of(t, file, found, on_self, on_receiver), called(t, n), t.start(d), BindingKind::Local, ty) by {
        called_is_leaf(t, t.child(i, "type"@)->0, ty);
    }
}

/// Each name that a declaration inside a function or a loop over a range
/// unpacks a value to is bound in the innermost scope at its place.
pub proof fn unpacked_names_are_bound(
    t: Syntax,
    file: Seq<char>,
    found: Seq<Seq<CaptureView>>,
    on_self: Seq<Seq<CaptureView>>,
    on_receiver: Seq<Seq<CaptureView>>,
    i: int,
    d: int,
    list: int,
    n: int,
)
    requires
        t.nested(),
        0 <= i < t.after(0),
        (t.kind(i) == "declaration"@ && t.has_child(i, d) && t.in_field(d, "declarator"@))
            || (t.kind(i) == "for_range_loop"@ && t.child(i, "declarator"@) == Some(d)),
        (t.kind(d) == "structured_binding_declarator"@ && list == d)
            || (t.kind(d) == "reference_declarator"@ && t.child_of_kind(d, "structured_binding_declarator"@) == Some(list))
            || (t.kind(d) == "init_declarator"@ && (t.child(d, "declarator"@) matches Some(e) && ((t.kind(e) == "structured_binding_declarator"@ && list == e) || (t.kind(e) == "reference_declarator"@ && t.child_of_kind(e, "structured_binding_declarator"@) == Some(list))))),
        t.has_child(list, n),
        t.kind(n) == "identifier"@,
        in_function(facts_of(t, file, found, on_self, on_receiver).scopes, t.start(n)),
        facts_of(t, file, found, on_self, on_receiver).scopes.len() <= usize::MAX,
    ensures
        binds(
            facts_of(t, file, found, on_self, on_receiver),
            t.text(n),
            t.start(n),
            BindingKind::Local,
        ),
{
    introduced_kinds();
    bindings_at_kinds();
    unpacked_kinds();
    let scopes = facts_of(t, file, found, on_self, on_receiver).scopes;
    let b = local_binding(scopes, t.text(n), t.start(n), BindingKind::Local, None);
    if t.kind(i) == "declaration"@ {
        reached_is_behind(t, i + 1, t.after(i), d);
    }
    function_is_code(scopes, t.start(n));
    if t.kind(d) == "init_declarator"@ {
        assert(unpacked(t, t.child(d, "declarator"@)->0) == Some(list));
    }
    assert(unpacked(t, d) == Some(list));
    assert(seq![b][0] == b);
    unpacked_in_has(t, scopes, list + 1, t.after(list), n, b);
    let ty = if t.kind(i) == "declaration"@ { typed_name(t, i) } else { None };
    assert(local_at(t, scopes, ty, d).contains(b));
    if t.kind(i) == "declaration"@ {
        declared_is_among(t, scopes, i, i + 1, t.after(i), d, b);
    } else {
        in_either(introduced(t, scopes, i), bindings_in(t, scopes, i + 1, t.after(i)), b);
    }
    let scopes = facts_of(t, file, found, on_self, on_receiver).scopes;
    let x = local_binding(scopes, t.text(n), t.start(n), BindingKind::Local, None);
    bindings_reported(t, file, found, on_self, on_receiver, i, x);
    local_is_bound(
        facts_of(t, file, found, on_self, on_receiver),
        t.text(n),
        t.start(n),
        BindingKind::Local,
        None,
    );
}

// ── Scopes ───────────────────────────────────────────────────────────────────

/// Whether a node opens a scope for what stands in it.
pub open spec fn is_holder(t: Syntax, k: int) -> bool {
    ||| t.kind(k) == "namespace_definition"@
    ||| t.kind(k) == "class_specifier"@
    ||| t.kind(k) == "struct_specifier"@
    ||| t.kind(k) == "union_specifier"@
    ||| t.kind(k) == "function_definition"@
    ||| t.kind(k) == "lambda_expression"@
}

/// The kind of the scope that a node opens.
pub open spec fn scope_kind(t: Syntax, k: int) -> ScopeKind {
    if t.kind(k) == "namespace_definition"@ || t.kind(k) == "class_specifier"@
        || t.kind(k) == "struct_specifier"@ || t.kind(k) == "union_specifier"@ {
        ScopeKind::Type
    } else if t.kind(k) == "function_definition"@ || t.kind(k) == "lambda_expression"@ {
        ScopeKind::Function
    } else {
        ScopeKind::Block
    }
}

/// Whether a node is the body of a holder.
pub open spec fn is_held(t: Syntax, k: int) -> bool {
    exists|p: int| #![trigger t.child(p, "body"@)] 0 <= p < k && is_holder(t, p)
        && t.child(p, "body"@) == Some(k)
}

/// Whether a node opens a scope of its own: a holder, or a block that is not the
/// body of one.
pub open spec fn opens(t: Syntax, k: int) -> bool {
    (is_holder(t, k) || t.kind(k) == "compound_statement"@) && !is_held(t, k)
}

/// Whether `outer` is the innermost node from `from` on that opens a scope around
/// node `j`.
pub open spec fn is_nearest(t: Syntax, from: int, j: int, outer: Option<int>) -> bool {
    match outer {
        Some(a) => from <= a < j && j < t.after(a) && opens(t, a) && forall|k: int| a < k < j
            && j < #[trigger] t.after(k)
            ==> !opens(t, k),
        None => forall|k: int| from <= k < j && j < #[trigger] t.after(k) ==> !opens(t, k),
    }
}

proof fn scopes_are_kept(t: Syntax, i: int, parent: ScopeId, scopes: Seq<Scope>)
    ensures
        extends(scopes_with(t, i, parent, scopes), scopes),
        t.has(i) && (is_holder(t, i) || t.kind(i) == "compound_statement"@)
            ==> extends(
                scopes_with(t, i, parent, scopes),
                scopes.push(
                    Scope { parent: Some(parent), span: span_at(t, i), kind: scope_kind(t, i) },
                ),
            ),
    decreases t.left(i), 0nat,
{
    if t.has(i) {
        scopes_with_kinds();
        let opened = scopes.push(
            Scope { parent: Some(parent), span: span_at(t, i), kind: scope_kind(t, i) },
        );
        let id = scopes.len() as usize;
        if is_holder(t, i) {
            part_scopes_are_kept(t, t.child(i, "body"@), i + 1, t.after(i), id, opened);
        } else if t.kind(i) == "compound_statement"@ {
            scopes_are_kept_in(t, i + 1, t.after(i), id, opened);
        } else {
            scopes_are_kept_in(t, i + 1, t.after(i), parent, scopes);
        }
    }
}

proof fn scopes_are_kept_in(t: Syntax, lo: int, hi: int, parent: ScopeId, scopes: Seq<Scope>)
    ensures
        extends(scopes_with_all(t, lo, hi, parent, scopes), scopes),
    decreases t.left(lo), 1nat,
{
    if lo < hi && t.has(lo) {
        scopes_are_kept(t, lo, parent, scopes);
        scopes_are_kept_in(t, t.next(lo, hi), hi, parent, scopes_with(t, lo, parent, scopes));
    }
}

proof fn part_scopes_are_kept(
    t: Syntax,
    body: Option<int>,
    lo: int,
    hi: int,
    parent: ScopeId,
    scopes: Seq<Scope>,
)
    ensures
        extends(part_scopes(t, body, lo, hi, parent, scopes), scopes),
    decreases t.left(lo), 1nat,
{
    if lo < hi && t.has(lo) {
        if body == Some(lo) {
            scopes_are_kept_in(t, lo + 1, t.after(lo), parent, scopes);
            part_scopes_are_kept(
                t,
                body,
                t.next(lo, hi),
                hi,
                parent,
                scopes_with_all(t, lo + 1, t.after(lo), parent, scopes),
            );
        } else {
            scopes_are_kept(t, lo, parent, scopes);
            part_scopes_are_kept(
                t,
                body,
                t.next(lo, hi),
                hi,
                parent,
                scopes_with(t, lo, parent, scopes),
            );
        }
    }
}

proof fn scope_is_opened(
    t: Syntax,
    i: int,
    parent: ScopeId,
    scopes: Seq<Scope>,
    j: int,
    outer: Option<int>,
)
    requires
        t.nested(),
        t.linked(),
        t.has(i),
        i <= j < t.after(i),
        forall|k: int| #[trigger] is_holder(t, k) ==> !is_held(t, k),
        opens(t, j),
        !is_held(t, i),
        is_nearest(t, i, j, outer),
        scopes_with(t, i, parent, scopes).len() <= usize::MAX,
    ensures
        opens_scope(
            scopes_with(t, i, parent, scopes),
            scopes.len() as int,
            t,
            j,
            scope_kind(t, j),
            parent,
            outer,
        ),
    decreases t.left(i), 0nat,
{
    scopes_with_kinds();
    let opened = scopes.push(
        Scope { parent: Some(parent), span: span_at(t, i), kind: scope_kind(t, i) },
    );
    let id = scopes.len() as usize;
    let after = scopes_with(t, i, parent, scopes);
    scopes_are_kept(t, i, parent, scopes);
    if i == j {
        assert(after[scopes.len() as int] == opened[scopes.len() as int]);
    } else {
        let inner = if outer == Some(i) { None } else { outer };
        if is_holder(t, i) {
            assert(opens(t, i));
            assert(after[id as int] == opened[id as int]);
            field_is_child(t, i, "body"@);
            if let Some(b) = t.child(i, "body"@) {
                assert(is_held(t, b));
            }
            assert forall|c: int| #[trigger] t.reaches(i + 1, t.after(i), c) && t.child(i, "body"@) != Some(c) implies !is_held(t, c) by {
                assert(t.has_child(i, c));
                if is_held(t, c) {
                    let p = choose|p: int| #![trigger t.child(p, "body"@)] 0 <= p < c
                        && is_holder(t, p) && t.child(p, "body"@) == Some(c);
                    field_is_child(t, p, "body"@);
                }
            }
            part_scope_is_opened(t, t.child(i, "body"@), i + 1, t.after(i), id, opened, j, inner);
            scope_is_within(after, t, i, j, scope_kind(t, j), id, parent, inner, outer);
        } else if t.kind(i) == "compound_statement"@ {
            assert(opens(t, i));
            assert(after[id as int] == opened[id as int]);
            assert forall|c: int| #[trigger] t.reaches(i + 1, t.after(i), c) implies !is_held(t, c) by {
                assert(t.has_child(i, c));
                if is_held(t, c) {
                    let p = choose|p: int| #![trigger t.child(p, "body"@)] 0 <= p < c
                        && is_holder(t, p) && t.child(p, "body"@) == Some(c);
                    field_is_child(t, p, "body"@);
                }
            }
            scope_is_opened_in(t, i + 1, t.after(i), id, opened, j, inner);
            scope_is_within(after, t, i, j, scope_kind(t, j), id, parent, inner, outer);
        } else {
            assert(!opens(t, i));
            assert forall|c: int| #[trigger] t.reaches(i + 1, t.after(i), c) implies !is_held(t, c) by {
                assert(t.has_child(i, c));
                if is_held(t, c) {
                    let p = choose|p: int| #![trigger t.child(p, "body"@)] 0 <= p < c
                        && is_holder(t, p) && t.child(p, "body"@) == Some(c);
                    field_is_child(t, p, "body"@);
                }
            }
            scope_is_opened_in(t, i + 1, t.after(i), parent, scopes, j, outer);
        }
    }
}

proof fn scope_is_opened_in(
    t: Syntax,
    lo: int,
    hi: int,
    parent: ScopeId,
    scopes: Seq<Scope>,
    j: int,
    outer: Option<int>,
)
    requires
        t.nested(),
        t.linked(),
        t.closed_range(lo, hi),
        lo <= j < hi,
        forall|k: int| #[trigger] is_holder(t, k) ==> !is_held(t, k),
        opens(t, j),
        forall|c: int| #[trigger] t.reaches(lo, hi, c) ==> !is_held(t, c),
        is_nearest(t, lo, j, outer),
        scopes_with_all(t, lo, hi, parent, scopes).len() <= usize::MAX,
    ensures
        opens_scope(
            scopes_with_all(t, lo, hi, parent, scopes),
            scopes.len() as int,
            t,
            j,
            scope_kind(t, j),
            parent,
            outer,
        ),
    decreases t.left(lo), 1nat,
{
    let next = t.next(lo, hi);
    assert(t.reaches(lo, hi, lo));
    assert forall|c: int| #[trigger] t.reaches(next, hi, c) implies t.reaches(lo, hi, c) by {}
    let first = scopes_with(t, lo, parent, scopes);
    let all = scopes_with_all(t, lo, hi, parent, scopes);
    scopes_are_kept(t, lo, parent, scopes);
    scopes_are_kept_in(t, next, hi, parent, first);
    if j < t.after(lo) {
        scope_is_opened(t, lo, parent, scopes, j, outer);
        opens_scope_stays(
            first,
            all,
            scopes.len() as int,
            scopes.len() as int,
            t,
            j,
            scope_kind(t, j),
            parent,
            outer,
        );
    } else {
        nearest_is_later(t, lo, next, j, outer);
        scope_is_opened_in(t, next, hi, parent, first, j, outer);
        opens_scope_stays(
            all,
            all,
            first.len() as int,
            scopes.len() as int,
            t,
            j,
            scope_kind(t, j),
            parent,
            outer,
        );
    }
}

proof fn nearest_is_later(t: Syntax, lo: int, next: int, j: int, outer: Option<int>)
    requires
        t.nested(),
        0 <= lo < t.len(),
        next == t.after(lo),
        next <= j,
        is_nearest(t, lo, j, outer),
    ensures
        is_nearest(t, next, j, outer),
{
    if let Some(a) = outer {
        if a < next {
            assert(t.after(a) <= t.after(lo));
        }
    }
}

proof fn part_scope_is_opened(
    t: Syntax,
    body: Option<int>,
    lo: int,
    hi: int,
    parent: ScopeId,
    scopes: Seq<Scope>,
    j: int,
    outer: Option<int>,
)
    requires
        t.nested(),
        t.linked(),
        t.closed_range(lo, hi),
        lo <= j < hi,
        forall|k: int| #[trigger] is_holder(t, k) ==> !is_held(t, k),
        opens(t, j),
        forall|c: int| #[trigger] t.reaches(lo, hi, c) && body != Some(c) ==> !is_held(t, c),
        body matches Some(b) ==> is_held(t, b),
        is_nearest(t, lo, j, outer),
        part_scopes(t, body, lo, hi, parent, scopes).len() <= usize::MAX,
    ensures
        opens_scope(
            part_scopes(t, body, lo, hi, parent, scopes),
            scopes.len() as int,
            t,
            j,
            scope_kind(t, j),
            parent,
            outer,
        ),
    decreases t.left(lo), 1nat,
{
    let next = t.next(lo, hi);
    assert(t.reaches(lo, hi, lo));
    assert forall|c: int| #[trigger] t.reaches(next, hi, c) implies t.reaches(lo, hi, c) by {}
    if body == Some(lo) {
        let first = scopes_with_all(t, lo + 1, t.after(lo), parent, scopes);
        let all = part_scopes(t, body, lo, hi, parent, scopes);
        scopes_are_kept_in(t, lo + 1, t.after(lo), parent, scopes);
        part_scopes_are_kept(t, body, next, hi, parent, first);
        if j < t.after(lo) {
            assert(!opens(t, lo));
            assert forall|c: int| #[trigger] t.reaches(lo + 1, t.after(lo), c) implies !is_held(t, c) by {
                assert(t.has_child(lo, c));
                if is_held(t, c) {
                    let p = choose|p: int| #![trigger t.child(p, "body"@)] 0 <= p < c
                        && is_holder(t, p) && t.child(p, "body"@) == Some(c);
                    field_is_child(t, p, "body"@);
                }
            }
            scope_is_opened_in(t, lo + 1, t.after(lo), parent, scopes, j, outer);
            opens_scope_stays(
                first,
                all,
                scopes.len() as int,
                scopes.len() as int,
                t,
                j,
                scope_kind(t, j),
                parent,
                outer,
            );
        } else {
            nearest_is_later(t, lo, next, j, outer);
            part_scope_is_opened(t, body, next, hi, parent, first, j, outer);
            opens_scope_stays(
                all,
                all,
                first.len() as int,
                scopes.len() as int,
                t,
                j,
                scope_kind(t, j),
                parent,
                outer,
            );
        }
    } else {
        let first = scopes_with(t, lo, parent, scopes);
        let all = part_scopes(t, body, lo, hi, parent, scopes);
        scopes_are_kept(t, lo, parent, scopes);
        part_scopes_are_kept(t, body, next, hi, parent, first);
        if j < t.after(lo) {
            scope_is_opened(t, lo, parent, scopes, j, outer);
            opens_scope_stays(
                first,
                all,
                scopes.len() as int,
                scopes.len() as int,
                t,
                j,
                scope_kind(t, j),
                parent,
                outer,
            );
        } else {
            nearest_is_later(t, lo, next, j, outer);
            part_scope_is_opened(t, body, next, hi, parent, first, j, outer);
            opens_scope_stays(
                all,
                all,
                first.len() as int,
                scopes.len() as int,
                t,
                j,
                scope_kind(t, j),
                parent,
                outer,
            );
        }
    }
}

/// A namespace, a class, a function and a lambda expression open a scope of
/// their own, and so does each block that is not the body of one. Its parent is
/// the scope of the innermost of these around it, or that of the file.
pub proof fn scopes_are_opened(
    t: Syntax,
    file: Seq<char>,
    found: Seq<Seq<CaptureView>>,
    on_self: Seq<Seq<CaptureView>>,
    on_receiver: Seq<Seq<CaptureView>>,
    j: int,
    outer: Option<int>,
)
    requires
        t.nested(),
        t.linked(),
        1 <= j < t.after(0),
        opens(t, j),
        forall|k: int| #[trigger] is_holder(t, k) ==> !is_held(t, k),
        !is_holder(t, 0),
        is_nearest(t, 1, j, outer),
        facts_of(t, file, found, on_self, on_receiver).scopes.len() <= usize::MAX,
    ensures
        opens_scope(
            facts_of(t, file, found, on_self, on_receiver).scopes,
            1,
            t,
            j,
            scope_kind(t, j),
            0,
            outer,
        ),
{
    let first = seq![module_scope(byte_count(t.source) as int)];
    assert forall|c: int| #[trigger] t.reaches(1, t.after(0), c) implies !is_held(t, c) by {
                assert(t.has_child(0, c));
                if is_held(t, c) {
                    let p = choose|p: int| #![trigger t.child(p, "body"@)] 0 <= p < c
                        && is_holder(t, p) && t.child(p, "body"@) == Some(c);
                    field_is_child(t, p, "body"@);
                }
            }
    scope_is_opened_in(t, 1, t.after(0), 0, first, j, outer);
}

// ── Modules ──────────────────────────────────────────────────────────────────

proof fn path_gives_namespaces(root: Seq<char>, parts: Seq<Seq<char>>, ext: Seq<char>)
    requires
        parts.len() > 0,
        are_parts(parts, '/'),
        ext == ".cc"@ || ext == ".cpp"@ || ext == ".cxx"@ || ext == ".hh"@ || ext == ".hpp"@
            || ext == ".hxx"@ || ext == ".c"@ || ext == ".h"@,
        root == "src/"@ || (root.len() == 0 && !has_prefix(join(parts, '/'), "src/"@)),
    ensures
        namespaces_of(root + join(parts, '/') + ext) == parts,
{
    reveal_strlit(".cc");
    reveal_strlit(".cpp");
    reveal_strlit(".cxx");
    reveal_strlit(".hh");
    reveal_strlit(".hpp");
    reveal_strlit(".hxx");
    reveal_strlit(".c");
    reveal_strlit(".h");
    reveal_strlit("src/");
    let body = join(parts, '/');
    let stem = root + body;
    joined_comes_apart(parts, '/');
    own_suffix(stem, ext);
    if ext == ".cc"@ {
        other_suffix(stem, ".cc"@, ".cpp"@, 1);
        other_suffix(stem, ".cc"@, ".cxx"@, 1);
        other_suffix(stem, ".cc"@, ".hh"@, 1);
        other_suffix(stem, ".cc"@, ".hpp"@, 1);
        other_suffix(stem, ".cc"@, ".hxx"@, 1);
        other_suffix(stem, ".cc"@, ".c"@, 2);
        other_suffix(stem, ".cc"@, ".h"@, 1);
    }
    if ext == ".cpp"@ {
        other_suffix(stem, ".cpp"@, ".cc"@, 1);
        other_suffix(stem, ".cpp"@, ".cxx"@, 1);
        other_suffix(stem, ".cpp"@, ".hh"@, 1);
        other_suffix(stem, ".cpp"@, ".hpp"@, 3);
        other_suffix(stem, ".cpp"@, ".hxx"@, 1);
        other_suffix(stem, ".cpp"@, ".c"@, 1);
        other_suffix(stem, ".cpp"@, ".h"@, 1);
    }
    if ext == ".cxx"@ {
        other_suffix(stem, ".cxx"@, ".cc"@, 1);
        other_suffix(stem, ".cxx"@, ".cpp"@, 1);
        other_suffix(stem, ".cxx"@, ".hh"@, 1);
        other_suffix(stem, ".cxx"@, ".hpp"@, 1);
        other_suffix(stem, ".cxx"@, ".hxx"@, 3);
        other_suffix(stem, ".cxx"@, ".c"@, 1);
        other_suffix(stem, ".cxx"@, ".h"@, 1);
    }
    if ext == ".hh"@ {
        other_suffix(stem, ".hh"@, ".cc"@, 1);
        other_suffix(stem, ".hh"@, ".cpp"@, 1);
        other_suffix(stem, ".hh"@, ".cxx"@, 1);
        other_suffix(stem, ".hh"@, ".hpp"@, 1);
        other_suffix(stem, ".hh"@, ".hxx"@, 1);
        other_suffix(stem, ".hh"@, ".c"@, 1);
        other_suffix(stem, ".hh"@, ".h"@, 2);
    }
    if ext == ".hpp"@ {
        other_suffix(stem, ".hpp"@, ".cc"@, 1);
        other_suffix(stem, ".hpp"@, ".cpp"@, 3);
        other_suffix(stem, ".hpp"@, ".cxx"@, 1);
        other_suffix(stem, ".hpp"@, ".hh"@, 1);
        other_suffix(stem, ".hpp"@, ".hxx"@, 1);
        other_suffix(stem, ".hpp"@, ".c"@, 1);
        other_suffix(stem, ".hpp"@, ".h"@, 1);
    }
    if ext == ".hxx"@ {
        other_suffix(stem, ".hxx"@, ".cc"@, 1);
        other_suffix(stem, ".hxx"@, ".cpp"@, 1);
        other_suffix(stem, ".hxx"@, ".cxx"@, 3);
        other_suffix(stem, ".hxx"@, ".hh"@, 1);
        other_suffix(stem, ".hxx"@, ".hpp"@, 1);
        other_suffix(stem, ".hxx"@, ".c"@, 1);
        other_suffix(stem, ".hxx"@, ".h"@, 1);
    }
    if ext == ".c"@ {
        other_suffix(stem, ".c"@, ".cc"@, 2);
        other_suffix(stem, ".c"@, ".cpp"@, 1);
        other_suffix(stem, ".c"@, ".cxx"@, 1);
        other_suffix(stem, ".c"@, ".hh"@, 1);
        other_suffix(stem, ".c"@, ".hpp"@, 1);
        other_suffix(stem, ".c"@, ".hxx"@, 1);
        other_suffix(stem, ".c"@, ".h"@, 1);
    }
    if ext == ".h"@ {
        other_suffix(stem, ".h"@, ".cc"@, 1);
        other_suffix(stem, ".h"@, ".cpp"@, 1);
        other_suffix(stem, ".h"@, ".cxx"@, 1);
        other_suffix(stem, ".h"@, ".hh"@, 2);
        other_suffix(stem, ".h"@, ".hpp"@, 1);
        other_suffix(stem, ".h"@, ".hxx"@, 1);
        other_suffix(stem, ".h"@, ".c"@, 1);
    }
    prefix_comes_off(root, body);
    if root == "src/"@ {
    }
    if root.len() == 0 {
        assert(stem =~= body);
    }
}

/// The module of a C++ file has the pieces of the path of the file as its
/// names, without `src/` in front and without the extension.
pub proof fn paths_name_modules(
    t: Syntax,
    file: Seq<char>,
    found: Seq<Seq<CaptureView>>,
    on_self: Seq<Seq<CaptureView>>,
    on_receiver: Seq<Seq<CaptureView>>,
    root: Seq<char>,
    parts: Seq<Seq<char>>,
    ext: Seq<char>,
)
    requires
        parts.len() > 0,
        are_parts(parts, '/'),
        ext == ".cc"@ || ext == ".cpp"@ || ext == ".cxx"@ || ext == ".hh"@ || ext == ".hpp"@
            || ext == ".hxx"@ || ext == ".c"@ || ext == ".h"@,
        root == "src/"@ || (root.len() == 0 && !has_prefix(join(parts, '/'), "src/"@)),
        file == root + join(parts, '/') + ext,
    ensures
        is_module(facts_of(t, file, found, on_self, on_receiver), parts),
{
    path_gives_namespaces(root, parts, ext);
}

/// Each definition of a file stands in the module of the file where the file is
/// in a namespace: its identity extends that of the module.
pub proof fn definitions_stand_in_modules(
    t: Syntax,
    file: Seq<char>,
    found: Seq<Seq<CaptureView>>,
    on_self: Seq<Seq<CaptureView>>,
    on_receiver: Seq<Seq<CaptureView>>,
    k: int,
)
    requires
        0 <= k < facts_of(t, file, found, on_self, on_receiver).symbols.len() - 1,
        namespaces_of(file).len() > 0,
    ensures
        extends_module(facts_of(t, file, found, on_self, on_receiver), k),
{
    let c = context(t, file);
    let prefix = steps(t, file);
    let f = facts_of(t, file, found, on_self, on_receiver);
    definitions_belong(c, prefix, 1, t.after(0));
    let defs = defs_in(c, prefix, 1, t.after(0));
    assert(f.symbols[k] == defs[k]);
    assert(f.symbols.last() == f.symbols[f.symbols.len() - 1]);
    assert(is_defined(c, namespace_steps(prefix), defs[k]));
    assert(belongs(c, namespace_steps(prefix), defs[k]));
}

// ── Nothing else is read or written ──────────────────────────────────────────

/// Whether the identifier `i` below `p` stands as a value: it is not called, assigned
/// to or introduced there.
pub open spec fn is_value_below(t: Syntax, p: int, i: int) -> bool {
    &&& t.kind(p) == "call_expression"@ ==> !(t.child(p, "function"@) == Some(i))
    &&& t.kind(p) == "qualified_identifier"@ ==> !(t.child(p, "name"@) == Some(i))
    &&& t.kind(p) == "function_declarator"@ ==> !(t.in_field(i, "declarator"@))
    &&& t.kind(p) == "pointer_declarator"@ ==> !(t.in_field(i, "declarator"@))
    &&& t.kind(p) == "array_declarator"@ ==> !(t.in_field(i, "declarator"@))
    &&& t.kind(p) == "init_declarator"@ ==> !(t.in_field(i, "declarator"@))
    &&& t.kind(p) == "function_definition"@ ==> !(t.in_field(i, "declarator"@))
    &&& t.kind(p) == "declaration"@ ==> !(t.in_field(i, "declarator"@))
    &&& t.kind(p) == "field_declaration"@ ==> !(t.in_field(i, "declarator"@))
    &&& t.kind(p) == "parameter_declaration"@ ==> !(t.in_field(i, "declarator"@))
    &&& t.kind(p) == "optional_parameter_declaration"@ ==> !(t.in_field(i, "declarator"@))
    &&& t.kind(p) == "variadic_parameter_declaration"@ ==> !(t.in_field(i, "declarator"@))
    &&& t.kind(p) == "for_range_loop"@ ==> !(t.in_field(i, "declarator"@))
    &&& t.kind(p) == "reference_declarator"@ ==> false
    &&& t.kind(p) == "attributed_declarator"@ ==> false
    &&& t.kind(p) == "parenthesized_declarator"@ ==> false
    &&& t.kind(p) == "variadic_declarator"@ ==> false
    &&& t.kind(p) == "structured_binding_declarator"@ ==> false
    &&& t.kind(p) == "field_expression"@ ==> !(t.child(p, "field"@) == Some(i))
    &&& t.kind(p) == "assignment_expression"@ ==> !(t.child(p, "left"@) == Some(i))
}

/// Each read of a file is of an identifier that is long enough and stands as a
/// value.
pub proof fn reads_are_values(t: Syntax, file: Seq<char>, k: int) -> (at: (int, int))
    requires
        t.nested(),
        t.has(0),
        identifiers_apart(t),
        0 <= k < reads_at(t, file, 0).len(),
    ensures
        0 <= at.1 < t.after(0),
        t.kind(at.1) == "identifier"@,
        long_enough(t.text(at.1)),
        t.parent(at.1) == Some(at.0),
        is_value_below(t, at.0, at.1),
        reads_at(t, file, 0)[k] == reference_at(t, file, at.1, t.text(at.1), RefRole::Read),
{
    reads_are_sound(t, file, k);
    let i = choose|i: int| 0 <= i < t.after(0) && #[trigger] is_read(t, i)
        && reads_at(t, file, 0)[k] == reference_at(t, file, i, t.text(i), RefRole::Read);
    let p = t.parent(i)->0;
    read_is_value(t, p, i);
    (p, i)
}

proof fn read_is_value(t: Syntax, p: int, i: int)
    requires
        t.parent(i) == Some(p),
        !not_read(t, i),
    ensures
        is_value_below(t, p, i),
{
    read_kinds();
}

#[verifier::rlimit(50)]
proof fn read_kinds()
    ensures
        "call_expression"@ != "qualified_identifier"@,
        "call_expression"@ != "function_declarator"@,
        "call_expression"@ != "pointer_declarator"@,
        "call_expression"@ != "array_declarator"@,
        "call_expression"@ != "init_declarator"@,
        "call_expression"@ != "function_definition"@,
        "call_expression"@ != "declaration"@,
        "call_expression"@ != "field_declaration"@,
        "call_expression"@ != "parameter_declaration"@,
        "call_expression"@ != "optional_parameter_declaration"@,
        "call_expression"@ != "variadic_parameter_declaration"@,
        "call_expression"@ != "for_range_loop"@,
        "call_expression"@ != "reference_declarator"@,
        "call_expression"@ != "attributed_declarator"@,
        "call_expression"@ != "parenthesized_declarator"@,
        "call_expression"@ != "variadic_declarator"@,
        "call_expression"@ != "structured_binding_declarator"@,
        "call_expression"@ != "field_expression"@,
        "call_expression"@ != "assignment_expression"@,
        "qualified_identifier"@ != "function_declarator"@,
        "qualified_identifier"@ != "pointer_declarator"@,
        "qualified_identifier"@ != "array_declarator"@,
        "qualified_identifier"@ != "init_declarator"@,
        "qualified_identifier"@ != "function_definition"@,
        "qualified_identifier"@ != "declaration"@,
        "qualified_identifier"@ != "field_declaration"@,
        "qualified_identifier"@ != "parameter_declaration"@,
        "qualified_identifier"@ != "optional_parameter_declaration"@,
        "qualified_identifier"@ != "variadic_parameter_declaration"@,
        "qualified_identifier"@ != "for_range_loop"@,
        "qualified_identifier"@ != "reference_declarator"@,
        "qualified_identifier"@ != "attributed_declarator"@,
        "qualified_identifier"@ != "parenthesized_declarator"@,
        "qualified_identifier"@ != "variadic_declarator"@,
        "qualified_identifier"@ != "structured_binding_declarator"@,
        "qualified_identifier"@ != "field_expression"@,
        "qualified_identifier"@ != "assignment_expression"@,
        "function_declarator"@ != "pointer_declarator"@,
        "function_declarator"@ != "array_declarator"@,
        "function_declarator"@ != "init_declarator"@,
        "function_declarator"@ != "function_definition"@,
        "function_declarator"@ != "declaration"@,
        "function_declarator"@ != "field_declaration"@,
        "function_declarator"@ != "parameter_declaration"@,
        "function_declarator"@ != "optional_parameter_declaration"@,
        "function_declarator"@ != "variadic_parameter_declaration"@,
        "function_declarator"@ != "for_range_loop"@,
        "function_declarator"@ != "reference_declarator"@,
        "function_declarator"@ != "attributed_declarator"@,
        "function_declarator"@ != "parenthesized_declarator"@,
        "function_declarator"@ != "variadic_declarator"@,
        "function_declarator"@ != "structured_binding_declarator"@,
        "function_declarator"@ != "field_expression"@,
        "function_declarator"@ != "assignment_expression"@,
        "pointer_declarator"@ != "array_declarator"@,
        "pointer_declarator"@ != "init_declarator"@,
        "pointer_declarator"@ != "function_definition"@,
        "pointer_declarator"@ != "declaration"@,
        "pointer_declarator"@ != "field_declaration"@,
        "pointer_declarator"@ != "parameter_declaration"@,
        "pointer_declarator"@ != "optional_parameter_declaration"@,
        "pointer_declarator"@ != "variadic_parameter_declaration"@,
        "pointer_declarator"@ != "for_range_loop"@,
        "pointer_declarator"@ != "reference_declarator"@,
        "pointer_declarator"@ != "attributed_declarator"@,
        "pointer_declarator"@ != "parenthesized_declarator"@,
        "pointer_declarator"@ != "variadic_declarator"@,
        "pointer_declarator"@ != "structured_binding_declarator"@,
        "pointer_declarator"@ != "field_expression"@,
        "pointer_declarator"@ != "assignment_expression"@,
        "array_declarator"@ != "init_declarator"@,
        "array_declarator"@ != "function_definition"@,
        "array_declarator"@ != "declaration"@,
        "array_declarator"@ != "field_declaration"@,
        "array_declarator"@ != "parameter_declaration"@,
        "array_declarator"@ != "optional_parameter_declaration"@,
        "array_declarator"@ != "variadic_parameter_declaration"@,
        "array_declarator"@ != "for_range_loop"@,
        "array_declarator"@ != "reference_declarator"@,
        "array_declarator"@ != "attributed_declarator"@,
        "array_declarator"@ != "parenthesized_declarator"@,
        "array_declarator"@ != "variadic_declarator"@,
        "array_declarator"@ != "structured_binding_declarator"@,
        "array_declarator"@ != "field_expression"@,
        "array_declarator"@ != "assignment_expression"@,
        "init_declarator"@ != "function_definition"@,
        "init_declarator"@ != "declaration"@,
        "init_declarator"@ != "field_declaration"@,
        "init_declarator"@ != "parameter_declaration"@,
        "init_declarator"@ != "optional_parameter_declaration"@,
        "init_declarator"@ != "variadic_parameter_declaration"@,
        "init_declarator"@ != "for_range_loop"@,
        "init_declarator"@ != "reference_declarator"@,
        "init_declarator"@ != "attributed_declarator"@,
        "init_declarator"@ != "parenthesized_declarator"@,
        "init_declarator"@ != "variadic_declarator"@,
        "init_declarator"@ != "structured_binding_declarator"@,
        "init_declarator"@ != "field_expression"@,
        "init_declarator"@ != "assignment_expression"@,
        "function_definition"@ != "declaration"@,
        "function_definition"@ != "field_declaration"@,
        "function_definition"@ != "parameter_declaration"@,
        "function_definition"@ != "optional_parameter_declaration"@,
        "function_definition"@ != "variadic_parameter_declaration"@,
        "function_definition"@ != "for_range_loop"@,
        "function_definition"@ != "reference_declarator"@,
        "function_definition"@ != "attributed_declarator"@,
        "function_definition"@ != "parenthesized_declarator"@,
        "function_definition"@ != "variadic_declarator"@,
        "function_definition"@ != "structured_binding_declarator"@,
        "function_definition"@ != "field_expression"@,
        "function_definition"@ != "assignment_expression"@,
        "declaration"@ != "field_declaration"@,
        "declaration"@ != "parameter_declaration"@,
        "declaration"@ != "optional_parameter_declaration"@,
        "declaration"@ != "variadic_parameter_declaration"@,
        "declaration"@ != "for_range_loop"@,
        "declaration"@ != "reference_declarator"@,
        "declaration"@ != "attributed_declarator"@,
        "declaration"@ != "parenthesized_declarator"@,
        "declaration"@ != "variadic_declarator"@,
        "declaration"@ != "structured_binding_declarator"@,
        "declaration"@ != "field_expression"@,
        "declaration"@ != "assignment_expression"@,
        "field_declaration"@ != "parameter_declaration"@,
        "field_declaration"@ != "optional_parameter_declaration"@,
        "field_declaration"@ != "variadic_parameter_declaration"@,
        "field_declaration"@ != "for_range_loop"@,
        "field_declaration"@ != "reference_declarator"@,
        "field_declaration"@ != "attributed_declarator"@,
        "field_declaration"@ != "parenthesized_declarator"@,
        "field_declaration"@ != "variadic_declarator"@,
        "field_declaration"@ != "structured_binding_declarator"@,
        "field_declaration"@ != "field_expression"@,
        "field_declaration"@ != "assignment_expression"@,
        "parameter_declaration"@ != "optional_parameter_declaration"@,
        "parameter_declaration"@ != "variadic_parameter_declaration"@,
        "parameter_declaration"@ != "for_range_loop"@,
        "parameter_declaration"@ != "reference_declarator"@,
        "parameter_declaration"@ != "attributed_declarator"@,
        "parameter_declaration"@ != "parenthesized_declarator"@,
        "parameter_declaration"@ != "variadic_declarator"@,
        "parameter_declaration"@ != "structured_binding_declarator"@,
        "parameter_declaration"@ != "field_expression"@,
        "parameter_declaration"@ != "assignment_expression"@,
        "optional_parameter_declaration"@ != "variadic_parameter_declaration"@,
        "optional_parameter_declaration"@ != "for_range_loop"@,
        "optional_parameter_declaration"@ != "reference_declarator"@,
        "optional_parameter_declaration"@ != "attributed_declarator"@,
        "optional_parameter_declaration"@ != "parenthesized_declarator"@,
        "optional_parameter_declaration"@ != "variadic_declarator"@,
        "optional_parameter_declaration"@ != "structured_binding_declarator"@,
        "optional_parameter_declaration"@ != "field_expression"@,
        "optional_parameter_declaration"@ != "assignment_expression"@,
        "variadic_parameter_declaration"@ != "for_range_loop"@,
        "variadic_parameter_declaration"@ != "reference_declarator"@,
        "variadic_parameter_declaration"@ != "attributed_declarator"@,
        "variadic_parameter_declaration"@ != "parenthesized_declarator"@,
        "variadic_parameter_declaration"@ != "variadic_declarator"@,
        "variadic_parameter_declaration"@ != "structured_binding_declarator"@,
        "variadic_parameter_declaration"@ != "field_expression"@,
        "variadic_parameter_declaration"@ != "assignment_expression"@,
        "for_range_loop"@ != "reference_declarator"@,
        "for_range_loop"@ != "attributed_declarator"@,
        "for_range_loop"@ != "parenthesized_declarator"@,
        "for_range_loop"@ != "variadic_declarator"@,
        "for_range_loop"@ != "structured_binding_declarator"@,
        "for_range_loop"@ != "field_expression"@,
        "for_range_loop"@ != "assignment_expression"@,
        "reference_declarator"@ != "attributed_declarator"@,
        "reference_declarator"@ != "parenthesized_declarator"@,
        "reference_declarator"@ != "variadic_declarator"@,
        "reference_declarator"@ != "structured_binding_declarator"@,
        "reference_declarator"@ != "field_expression"@,
        "reference_declarator"@ != "assignment_expression"@,
        "attributed_declarator"@ != "parenthesized_declarator"@,
        "attributed_declarator"@ != "variadic_declarator"@,
        "attributed_declarator"@ != "structured_binding_declarator"@,
        "attributed_declarator"@ != "field_expression"@,
        "attributed_declarator"@ != "assignment_expression"@,
        "parenthesized_declarator"@ != "variadic_declarator"@,
        "parenthesized_declarator"@ != "structured_binding_declarator"@,
        "parenthesized_declarator"@ != "field_expression"@,
        "parenthesized_declarator"@ != "assignment_expression"@,
        "variadic_declarator"@ != "structured_binding_declarator"@,
        "variadic_declarator"@ != "field_expression"@,
        "variadic_declarator"@ != "assignment_expression"@,
        "structured_binding_declarator"@ != "field_expression"@,
        "structured_binding_declarator"@ != "assignment_expression"@,
        "field_expression"@ != "assignment_expression"@,
{
    reveal_strlit("call_expression");
    reveal_strlit("qualified_identifier");
    reveal_strlit("function_declarator");
    reveal_strlit("pointer_declarator");
    reveal_strlit("array_declarator");
    reveal_strlit("init_declarator");
    reveal_strlit("function_definition");
    reveal_strlit("declaration");
    reveal_strlit("field_declaration");
    reveal_strlit("parameter_declaration");
    reveal_strlit("optional_parameter_declaration");
    reveal_strlit("variadic_parameter_declaration");
    reveal_strlit("for_range_loop");
    reveal_strlit("reference_declarator");
    reveal_strlit("attributed_declarator");
    reveal_strlit("parenthesized_declarator");
    reveal_strlit("variadic_declarator");
    reveal_strlit("structured_binding_declarator");
    reveal_strlit("field_expression");
    reveal_strlit("assignment_expression");
    assert("call_expression"@.len() == 15);
    assert("qualified_identifier"@.len() == 20);
    assert("function_declarator"@.len() == 19);
    assert("pointer_declarator"@.len() == 18);
    assert("array_declarator"@.len() == 16);
    assert("init_declarator"@.len() == 15);
    assert("function_definition"@.len() == 19);
    assert("declaration"@.len() == 11);
    assert("field_declaration"@.len() == 17);
    assert("parameter_declaration"@.len() == 21);
    assert("optional_parameter_declaration"@.len() == 30);
    assert("variadic_parameter_declaration"@.len() == 30);
    assert("for_range_loop"@.len() == 14);
    assert("reference_declarator"@.len() == 20);
    assert("attributed_declarator"@.len() == 21);
    assert("parenthesized_declarator"@.len() == 24);
    assert("variadic_declarator"@.len() == 19);
    assert("structured_binding_declarator"@.len() == 29);
    assert("field_expression"@.len() == 16);
    assert("assignment_expression"@.len() == 21);
    assert("call_expression"@[0] != "init_declarator"@[0]);
    assert("qualified_identifier"@[0] != "reference_declarator"@[0]);
    assert("function_declarator"@[11] != "function_definition"@[11]);
    assert("function_declarator"@[0] != "variadic_declarator"@[0]);
    assert("array_declarator"@[0] != "field_expression"@[0]);
    assert("function_definition"@[0] != "variadic_declarator"@[0]);
    assert("parameter_declaration"@[0] != "attributed_declarator"@[0]);
    assert("parameter_declaration"@[0] != "assignment_expression"@[0]);
    assert("optional_parameter_declaration"@[0] != "variadic_parameter_declaration"@[0]);
    assert("attributed_declarator"@[1] != "assignment_expression"@[1]);
}

/// Whether node `n` is an identifier that is long enough and that node `i` assigns to.
pub open spec fn is_assigned(t: Syntax, i: int, n: int) -> bool {
    t.kind(n) == "identifier"@ && long_enough(t.text(n)) && t.kind(i) == "assignment_expression"@
        && t.child(i, "left"@) == Some(n)
}

/// Each write of a file is of an identifier that is long enough and that an
/// assignment assigns to.
pub proof fn writes_are_targets(t: Syntax, file: Seq<char>, k: int) -> (at: (int, int))
    requires
        t.nested(),
        t.has(0),
        0 <= k < writes_at(t, file, 0).len(),
    ensures
        0 <= at.0 < t.after(0),
        is_assigned(t, at.0, at.1),
        writes_at(t, file, 0)[k] == reference_at(t, file, at.1, t.text(at.1), RefRole::Write),
{
    let items = writes_of_nodes(t, file);
    let is_one = |r: ReferenceView| exists|i: int, n: int| 0 <= i < t.after(0)
        && #[trigger] is_assigned(t, i, n)
        && r == reference_at(t, file, n, t.text(n), RefRole::Write);
    writes_in_document_order(t, file, 0);
    assert forall|i: int, e: int| 0 <= i < t.after(0) && 0 <= e < items(i).len() implies is_one(#[trigger] items(i)[e]) by {
        assert(is_assigned(t, i, t.child(i, "left"@)->0));
    }
    in_order_all(items, 0, t.after(0), is_one);
    assert(is_one(writes_at(t, file, 0)[k]));
    choose|i: int, n: int| 0 <= i < t.after(0) && #[trigger] is_assigned(t, i, n)
        && writes_at(t, file, 0)[k] == reference_at(t, file, n, t.text(n), RefRole::Write)
}

// ── Nothing else is defined ──────────────────────────────────────────────────

/// Whether node `i` is of a kind that declares symbols of the kind `kind`.
pub open spec fn declares(t: Syntax, i: int, kind: SymbolKind) -> bool {
    match kind {
        SymbolKind::Function => t.kind(i) == "function_definition"@ || t.kind(i) == "declaration"@
            || t.kind(i) == "preproc_function_def"@,
        SymbolKind::Method => t.kind(i) == "function_definition"@
            || t.kind(i) == "field_declaration"@ || t.kind(i) == "declaration"@,
        SymbolKind::Static => t.kind(i) == "declaration"@ || t.kind(i) == "field_declaration"@,
        SymbolKind::TypeAlias => t.kind(i) == "type_definition"@
            || t.kind(i) == "alias_declaration"@,
        SymbolKind::Const => t.kind(i) == "preproc_def"@,
        SymbolKind::Class => t.kind(i) == "class_specifier"@,
        SymbolKind::Struct => t.kind(i) == "struct_specifier"@ || t.kind(i) == "union_specifier"@,
        SymbolKind::Enum => t.kind(i) == "enum_specifier"@,
        _ => false,
    }
}

/// The characters at which the signature of a symbol of the kind `kind` at node
/// `i` ends.
pub open spec fn stops_at(t: Syntax, i: int, kind: SymbolKind) -> Seq<char> {
    "{;"@
}

/// Whether a symbol stands at a node that declares symbols of its kind, and has the
/// words of the node up to where it stops for a signature.
pub open spec fn is_declared_by(c: Ctx, s: SymbolView) -> bool {
    exists|i: int| #![trigger occurrence_at(c.tree, c.file, i)] s.occ == occurrence_at(
        c.tree,
        c.file,
        i,
    )
        && s.span == span_at(c.tree, i) && declares(c.tree, i, s.kind)
        && s.signature == one_line(c.tree.text(i), stops_at(c.tree, i, s.kind))
}

/// Whether all symbols do.
pub open spec fn all_declared(c: Ctx, symbols: Seq<SymbolView>) -> bool {
    forall|k: int| 0 <= k < symbols.len() ==> is_declared_by(c, #[trigger] symbols[k])
}

proof fn member_declarators_in_declared(
    c: Ctx,
    prefix: Seq<DescriptorView>,
    visibility: Visibility,
    owner: int,
    lo: int,
    hi: int,
)
    requires
        c.tree.kind(owner) == "function_definition"@ || holds_types(c.tree, owner),
    ensures
        all_declared(c, member_declarators_in(c, prefix, visibility, owner, lo, hi)),
    decreases hi - lo,
{
    if lo < hi {
        member_declarators_in_declared(c, prefix, visibility, owner, c.tree.next(lo, hi), hi);
    }
}

proof fn member_symbols_declared(
    c: Ctx,
    prefix: Seq<DescriptorView>,
    visibility: Visibility,
    i: int,
)
    ensures
        all_declared(c, member_symbols(c, prefix, visibility, i)),
{
    let t = c.tree;
    if t.kind(i) == "function_definition"@ || holds_types(t, i) {
        member_declarators_in_declared(c, prefix, visibility, i, i + 1, t.after(i));
    }
}

proof fn aggregate_at_declared(c: Ctx, ns: Seq<Seq<char>>, visibility: Visibility, i: int)
    ensures
        all_declared(c, aggregate_at(c, ns, visibility, i)),
    decreases c.tree.left(i), 0nat,
{
    let t = c.tree;
    if t.has(i) {
        match (aggregate_kind(t, i), t.child(i, "body"@), t.child(i, "name"@)) {
            (Some((kind, default)), Some(body), Some(n)) => {
                if let Some(name) = leaf_name(t, n) {
                    if kind != SymbolKind::Enum {
                        members_in_declared(c, ns, name, default, body + 1, t.after(body));
                    }
                }
            },
            _ => {},
        }
    }
}

proof fn members_in_declared(
    c: Ctx,
    ns: Seq<Seq<char>>,
    name: Seq<char>,
    visibility: Visibility,
    lo: int,
    hi: int,
)
    ensures
        all_declared(c, members_in(c, ns, name, visibility, lo, hi)),
    decreases c.tree.left(lo), 2nat,
{
    let t = c.tree;
    if lo < hi && t.has(lo) {
        if t.kind(lo) == "access_specifier"@ {
            members_in_declared(c, ns, name, access(t, lo), t.next(lo, hi), hi);
        } else {
            member_at_declared(c, ns, name, visibility, lo);
            members_in_declared(c, ns, name, visibility, t.next(lo, hi), hi);
        }
    }
}

proof fn member_at_declared(
    c: Ctx,
    ns: Seq<Seq<char>>,
    name: Seq<char>,
    visibility: Visibility,
    i: int,
)
    ensures
        all_declared(c, member_at(c, ns, name, visibility, i)),
    decreases c.tree.left(i), 1nat,
{
    let t = c.tree;
    let prefix = namespace_steps(ns) + seq![DescriptorView::Type(name)];
    if t.has(i) {
        if aggregate_kind(t, i) is Some {
            aggregate_at_declared(c, ns + seq![name], visibility, i);
        } else if t.kind(i) == "template_declaration"@ {
            templated_members_in_declared(c, ns, name, visibility, i + 1, t.after(i));
        } else if is_section(t, i) {
            members_in_declared(c, ns, name, visibility, i + 1, t.after(i));
        } else if holds_types(t, i) {
            if let Some(ty) = t.child(i, "type"@) {
                aggregate_at_declared(c, ns + seq![name], visibility, ty);
            }
            member_symbols_declared(c, prefix, visibility, i);
        } else {
            member_symbols_declared(c, prefix, visibility, i);
        }
    }
}

proof fn templated_members_in_declared(
    c: Ctx,
    ns: Seq<Seq<char>>,
    name: Seq<char>,
    visibility: Visibility,
    lo: int,
    hi: int,
)
    ensures
        all_declared(c, templated_members_in(c, ns, name, visibility, lo, hi)),
    decreases c.tree.left(lo), 2nat,
{
    if lo < hi && c.tree.has(lo) {
        if is_templated(c.tree, lo) {
            member_at_declared(c, ns, name, visibility, lo);
        }
        templated_members_in_declared(c, ns, name, visibility, c.tree.next(lo, hi), hi);
    }
}

proof fn declarators_in_declared(c: Ctx, ns: Seq<Seq<char>>, owner: int, lo: int, hi: int)
    requires
        c.tree.kind(owner) == "declaration"@,
    ensures
        all_declared(c, declarators_in(c, ns, owner, lo, hi)),
    decreases hi - lo,
{
    if lo < hi {
        declarators_in_declared(c, ns, owner, c.tree.next(lo, hi), hi);
    }
}

proof fn typedefs_in_declared(c: Ctx, ns: Seq<Seq<char>>, owner: int, lo: int, hi: int)
    requires
        c.tree.kind(owner) == "type_definition"@,
    ensures
        all_declared(c, typedefs_in(c, ns, owner, lo, hi)),
    decreases hi - lo,
{
    if lo < hi {
        typedefs_in_declared(c, ns, owner, c.tree.next(lo, hi), hi);
    }
}

proof fn typed_aggregate_declared(c: Ctx, ns: Seq<Seq<char>>, i: int)
    ensures
        all_declared(c, typed_aggregate(c, ns, i)),
{
    if let Some(ty) = c.tree.child(i, "type"@) {
        aggregate_at_declared(c, ns, Visibility::Public, ty);
    }
}

proof fn defs_at_declared(c: Ctx, ns: Seq<Seq<char>>, i: int)
    ensures
        all_declared(c, defs_at(c, ns, i)),
    decreases c.tree.left(i), 2nat,
{
    let t = c.tree;
    let kind = t.kind(i);
    if t.has(i) {
        if is_section(t, i) {
            definitions_declared(c, ns, i + 1, t.after(i));
        } else if kind == "namespace_definition"@ {
            if let Some(body) = t.child(i, "body"@) {
                definitions_declared(c, inner_namespaces(t, ns, i), body + 1, t.after(body));
            }
        } else if kind != "function_definition"@ {
            if kind == "declaration"@ {
                typed_aggregate_declared(c, ns, i);
                declarators_in_declared(c, ns, i, i + 1, t.after(i));
            } else if aggregate_kind(t, i) is Some {
                aggregate_at_declared(c, ns, Visibility::Public, i);
            } else if kind == "type_definition"@ {
                typed_aggregate_declared(c, ns, i);
                typedefs_in_declared(c, ns, i, i + 1, t.after(i));
            } else if kind != "alias_declaration"@ && kind == "template_declaration"@ {
                templated_in_declared(c, ns, i + 1, t.after(i));
            }
        }
    }
}

proof fn definitions_declared(c: Ctx, ns: Seq<Seq<char>>, lo: int, hi: int)
    ensures
        all_declared(c, defs_in(c, ns, lo, hi)),
    decreases c.tree.left(lo), 3nat,
{
    if lo < hi && c.tree.has(lo) {
        defs_at_declared(c, ns, lo);
        definitions_declared(c, ns, c.tree.next(lo, hi), hi);
    }
}

proof fn templated_in_declared(c: Ctx, ns: Seq<Seq<char>>, lo: int, hi: int)
    ensures
        all_declared(c, templated_in(c, ns, lo, hi)),
    decreases c.tree.left(lo), 3nat,
{
    if lo < hi && c.tree.has(lo) {
        if is_templated(c.tree, lo) {
            defs_at_declared(c, ns, lo);
        }
        templated_in_declared(c, ns, c.tree.next(lo, hi), hi);
    }
}

/// Each definition of a file, but for that of its module, stands at a node that
/// declares symbols of its kind. Its signature is the text of the node on one
/// line, up to where it stops.
pub proof fn definitions_stand_at_declarations(
    t: Syntax,
    file: Seq<char>,
    found: Seq<Seq<CaptureView>>,
    on_self: Seq<Seq<CaptureView>>,
    on_receiver: Seq<Seq<CaptureView>>,
    k: int,
) -> (i: int)
    requires
        0 <= k < facts_of(t, file, found, on_self, on_receiver).symbols.len() - 1,
    ensures
        declares(t, i, facts_of(t, file, found, on_self, on_receiver).symbols[k].kind),
        is_at(facts_of(t, file, found, on_self, on_receiver).symbols[k].occ, file, t, i),
        facts_of(t, file, found, on_self, on_receiver).symbols[k].span.start == t.start(i) as usize,
        facts_of(t, file, found, on_self, on_receiver).symbols[k].span.end == t.end(i) as usize,
        facts_of(t, file, found, on_self, on_receiver).symbols[k].signature == one_line(
            t.text(i),
            stops_at(t, i, facts_of(t, file, found, on_self, on_receiver).symbols[k].kind),
        ),
{
    let c = context(t, file);
    let prefix = steps(t, file);
    let f = facts_of(t, file, found, on_self, on_receiver);
    definitions_declared(c, prefix, 1, t.after(0));
    let defs = defs_in(c, prefix, 1, t.after(0));
    assert(f.symbols[k] == defs[k]);
    assert(is_declared_by(c, defs[k]));
    choose|i: int| #![trigger occurrence_at(t, file, i)] defs[k].occ == occurrence_at(t, file, i)
        && defs[k].span == span_at(t, i) && declares(t, i, defs[k].kind)
        && defs[k].signature == one_line(t.text(i), stops_at(t, i, defs[k].kind))
}

// ── No other type is referred to ─────────────────────────────────────────────

/// Whether node `i` names a type, by the name `name`.
pub open spec fn names_type(t: Syntax, i: int, name: Seq<char>) -> bool {
    t.kind(i) == "type_identifier"@ && name == t.text(i)
        || (t.kind(i) == "qualified_identifier"@ && name == after_last_part(t.text(i), "::"@))
        || (exists|p: int| #[trigger] t.kind(p) == "template_type"@ && t.child(p, "name"@) == Some(i) && leaf_name(t, i) == Some(name))
}

/// Whether a reference is to a type that a node names, and says where it stands.
pub open spec fn is_of_type(t: Syntax, file: Seq<char>, r: ReferenceView) -> bool {
    &&& r.role == RefRole::TypeRef
    &&& r.type_ref_ctx is Some
    &&& exists|i: int| #![trigger occurrence_at(t, file, i)] r.occ == occurrence_at(t, file, i)
        && names_type(t, i, r.name)
}

/// Whether all references are.
pub open spec fn all_of_types(t: Syntax, file: Seq<char>, references: Seq<ReferenceView>) -> bool {
    forall|k: int| 0 <= k < references.len() ==> is_of_type(t, file, #[trigger] references[k])
}

proof fn leaves_at_typed(t: Syntax, file: Seq<char>, ctx: TypeRefContext, i: int)
    ensures
        all_of_types(t, file, leaves_at(t, file, ctx, i)),
    decreases t.left(i), 0nat,
{
    let kind = t.kind(i);
    if t.has(i) && kind != "type_identifier"@ {
        if kind == "qualified_identifier"@ {
            if let Some(name) = t.child(i, "name"@) {
                leaves_at_typed(t, file, ctx, name);
            }
        } else if kind == "template_type"@ {
            template_lists_in_typed(t, file, i + 1, t.after(i));
        }
    }
}

proof fn template_args_in_typed(t: Syntax, file: Seq<char>, lo: int, hi: int)
    ensures
        all_of_types(t, file, template_args_in(t, file, lo, hi)),
    decreases t.left(lo), 1nat,
{
    if lo < hi && t.has(lo) {
        if t.kind(lo) == "type_descriptor"@ {
            if let Some(ty) = t.child(lo, "type"@) {
                leaves_at_typed(t, file, TypeRefContext::GenericArg, ty);
            }
        } else if t.kind(lo) == "type_identifier"@ || t.kind(lo) == "qualified_identifier"@
            || t.kind(lo) == "template_type"@ {
            leaves_at_typed(t, file, TypeRefContext::GenericArg, lo);
        }
        template_args_in_typed(t, file, t.next(lo, hi), hi);
    }
}

proof fn template_lists_in_typed(t: Syntax, file: Seq<char>, lo: int, hi: int)
    ensures
        all_of_types(t, file, template_lists_in(t, file, lo, hi)),
    decreases t.left(lo), 1nat,
{
    if lo < hi && t.has(lo) {
        if t.kind(lo) == "template_argument_list"@ {
            template_args_in_typed(t, file, lo + 1, t.after(lo));
        }
        template_lists_in_typed(t, file, t.next(lo, hi), hi);
    }
}

proof fn own_type_refs_typed(t: Syntax, file: Seq<char>, i: int)
    ensures
        all_of_types(t, file, own_type_refs(t, file, i)),
{
    match (typed_place(t, i), t.child(i, "type"@)) {
        (Some(ctx), Some(ty)) => {
            leaves_at_typed(t, file, ctx, ty);
        },
        _ => {},
    }
}

proof fn type_refs_at_typed(t: Syntax, file: Seq<char>, i: int)
    ensures
        all_of_types(t, file, type_refs_at(t, file, i)),
    decreases t.left(i), 0nat,
{
    if t.has(i) {
        own_type_refs_typed(t, file, i);
        type_refs_in_typed(t, file, i + 1, t.after(i));
    }
}

proof fn type_refs_in_typed(t: Syntax, file: Seq<char>, lo: int, hi: int)
    ensures
        all_of_types(t, file, type_refs_in(t, file, lo, hi)),
    decreases t.left(lo), 1nat,
{
    if lo < hi && t.has(lo) {
        type_refs_at_typed(t, file, lo);
        type_refs_in_typed(t, file, t.next(lo, hi), hi);
    }
}

/// Each type reference of a file stands at a node that names a type.
pub proof fn type_references_name_types(t: Syntax, file: Seq<char>, k: int) -> (i: int)
    requires
        0 <= k < type_refs_at(t, file, 0).len(),
    ensures
        type_refs_at(t, file, 0)[k].role == RefRole::TypeRef,
        type_refs_at(t, file, 0)[k].type_ref_ctx is Some,
        is_at(type_refs_at(t, file, 0)[k].occ, file, t, i),
        names_type(t, i, type_refs_at(t, file, 0)[k].name),
{
    type_refs_at_typed(t, file, 0);
    let r = type_refs_at(t, file, 0)[k];
    assert(is_of_type(t, file, r));
    choose|i: int| #![trigger occurrence_at(t, file, i)] r.occ == occurrence_at(t, file, i)
        && names_type(t, i, r.name)
}

// ── All names and places ─────────────────────────────────────────────────────

/// The facts of a file name the file and its language.
pub proof fn facts_name_their_file(
    t: Syntax,
    file: Seq<char>,
    found: Seq<Seq<CaptureView>>,
    on_self: Seq<Seq<CaptureView>>,
    on_receiver: Seq<Seq<CaptureView>>,
)
    ensures
        facts_of(t, file, found, on_self, on_receiver).file == file,
        facts_of(t, file, found, on_self, on_receiver).lang == Language::Cpp.tag(),
{
}

/// Each reference has the last scope of the file that holds its place.
pub proof fn references_have_innermost_scopes(
    t: Syntax,
    file: Seq<char>,
    found: Seq<Seq<CaptureView>>,
    on_self: Seq<Seq<CaptureView>>,
    on_receiver: Seq<Seq<CaptureView>>,
    k: int,
)
    requires
        0 <= k < facts_of(t, file, found, on_self, on_receiver).references.len(),
        facts_of(t, file, found, on_self, on_receiver).scopes.len() <= usize::MAX,
    ensures
        is_scoped(
            facts_of(t, file, found, on_self, on_receiver).scopes,
            facts_of(t, file, found, on_self, on_receiver).references[k],
        ),
{
    place_is_scoped(
        facts_of(t, file, found, on_self, on_receiver).scopes,
        facts_of(t, file, found, on_self, on_receiver).references[k],
    );
}

/// Each definition of a file, but for that of its module, is bound in the scope
/// of the file as a whole.
pub proof fn definitions_are_bound(
    t: Syntax,
    file: Seq<char>,
    found: Seq<Seq<CaptureView>>,
    on_self: Seq<Seq<CaptureView>>,
    on_receiver: Seq<Seq<CaptureView>>,
    k: int,
)
    requires
        0 <= k < facts_of(t, file, found, on_self, on_receiver).symbols.len() - 1,
    ensures
        binds_definition(
            facts_of(t, file, found, on_self, on_receiver),
            facts_of(t, file, found, on_self, on_receiver).symbols[k],
        ),
{
    let f = facts_of(t, file, found, on_self, on_receiver);
    let locals = bindings_at(t, f.scopes, 0);
    let c = context(t, file);
    let prefix = steps(t, file);
    let defs = defs_in(c, prefix, 1, t.after(0));
    let imported: Seq<BindingView> = Seq::empty();
    assert(f.bindings =~= locals + definitions_bound(defs) + imported);
    assert(f.symbols[k] == defs[k]);
    definition_is_bound(f, locals, defs, imported, k);
}

/// Each name that a file binds is that of a definition or of an import of the
/// file, or is bound to itself in the innermost scope at its place.
pub proof fn bindings_have_origins(
    t: Syntax,
    file: Seq<char>,
    found: Seq<Seq<CaptureView>>,
    on_self: Seq<Seq<CaptureView>>,
    on_receiver: Seq<Seq<CaptureView>>,
    k: int,
)
    requires
        0 <= k < facts_of(t, file, found, on_self, on_receiver).bindings.len(),
        facts_of(t, file, found, on_self, on_receiver).scopes.len() <= usize::MAX,
    ensures
        has_origin(
            facts_of(t, file, found, on_self, on_receiver),
            facts_of(t, file, found, on_self, on_receiver).bindings[k],
        ),
{
    let f = facts_of(t, file, found, on_self, on_receiver);
    let locals = bindings_at(t, f.scopes, 0);
    let c = context(t, file);
    let prefix = steps(t, file);
    let defs = defs_in(c, prefix, 1, t.after(0));
    let imported: Seq<BindingView> = Seq::empty();
    assert(f.bindings =~= locals + definitions_bound(defs) + imported);
    locals_are_nested(t, f.scopes, 0);
    bound_has_origin(f, locals, defs, imported, k);
}

// ── Calls ────────────────────────────────────────────────────────────────────

/// Each match with a callee that is long enough and a qualifier is a call with
/// that qualifier, unless it is one on the object itself.
pub proof fn calls_are_reported(
    t: Syntax,
    file: Seq<char>,
    found: Seq<Seq<CaptureView>>,
    on_self: Seq<Seq<CaptureView>>,
    on_receiver: Seq<Seq<CaptureView>>,
    k: int,
    c: CaptureView,
    q: CaptureView,
)
    requires
        0 <= k < found.len(),
        captures(found[k], "callee"@, c),
        long_enough(text_between(t.source, c.start, c.end)),
        captures(found[k], "qualifier"@, q),
        !calls_at(on_self, c.start),
    ensures
        calls_name(
            facts_of(t, file, found, on_self, on_receiver),
            c,
            text_between(t.source, c.start, c.end),
            Some(text_between(t.source, q.start, q.end)),
            false,
        ),
{
    call_is_found(t.source, file, found, k, c);
    let plain = plain_call(t.source, file, found[k]);
    mark_is_found(on_self, c.start);
    qualified_call_is_found(t.source, file, found, on_self, on_receiver, plain);
    let r = receiver_marked(t.source, on_receiver, self_marked(on_self, plain));
    in_either(
        calls_qualified(t.source, file, found, on_self, on_receiver),
        inherits_at(t, file, 0),
        r,
    );
    in_either(
        calls_qualified(t.source, file, found, on_self, on_receiver) + inherits_at(t, file, 0),
        reads_at(t, file, 0),
        r,
    );
    in_either(
        calls_qualified(t.source, file, found, on_self, on_receiver) + inherits_at(t, file, 0)
            + reads_at(t, file, 0),
        writes_at(t, file, 0),
        r,
    );
    in_either(
        calls_qualified(t.source, file, found, on_self, on_receiver) + inherits_at(t, file, 0)
            + reads_at(t, file, 0) + writes_at(t, file, 0),
        type_refs_at(t, file, 0),
        r,
    );
    is_reported(
        facts_of(t, file, found, on_self, on_receiver),
        references_of(t, file, found, on_self, on_receiver),
        r,
    );
}

/// Each match with a callee that is long enough and without a qualifier is a
/// call without one, unless another query gives it a receiver.
pub proof fn plain_calls_are_reported(
    t: Syntax,
    file: Seq<char>,
    found: Seq<Seq<CaptureView>>,
    on_self: Seq<Seq<CaptureView>>,
    on_receiver: Seq<Seq<CaptureView>>,
    k: int,
    c: CaptureView,
)
    requires
        0 <= k < found.len(),
        captures(found[k], "callee"@, c),
        long_enough(text_between(t.source, c.start, c.end)),
        lacks(found[k], "qualifier"@),
        !calls_at(on_self, c.start),
        !calls_at(on_receiver, c.start),
    ensures
        calls_name(
            facts_of(t, file, found, on_self, on_receiver),
            c,
            text_between(t.source, c.start, c.end),
            None,
            false,
        ),
{
    call_is_found(t.source, file, found, k, c);
    let plain = plain_call(t.source, file, found[k]);
    mark_is_found(on_self, c.start);
    qualified_call_is_found(t.source, file, found, on_self, on_receiver, plain);
    mark_is_found(on_receiver, c.start);
    let r = receiver_marked(t.source, on_receiver, self_marked(on_self, plain));
    in_either(
        calls_qualified(t.source, file, found, on_self, on_receiver),
        inherits_at(t, file, 0),
        r,
    );
    in_either(
        calls_qualified(t.source, file, found, on_self, on_receiver) + inherits_at(t, file, 0),
        reads_at(t, file, 0),
        r,
    );
    in_either(
        calls_qualified(t.source, file, found, on_self, on_receiver) + inherits_at(t, file, 0)
            + reads_at(t, file, 0),
        writes_at(t, file, 0),
        r,
    );
    in_either(
        calls_qualified(t.source, file, found, on_self, on_receiver) + inherits_at(t, file, 0)
            + reads_at(t, file, 0) + writes_at(t, file, 0),
        type_refs_at(t, file, 0),
        r,
    );
    is_reported(
        facts_of(t, file, found, on_self, on_receiver),
        references_of(t, file, found, on_self, on_receiver),
        r,
    );
}

/// A call that the query on calls on the object itself reports at its place is
/// marked as one, without a qualifier.
pub proof fn calls_on_itself_are_marked(
    t: Syntax,
    file: Seq<char>,
    found: Seq<Seq<CaptureView>>,
    on_self: Seq<Seq<CaptureView>>,
    on_receiver: Seq<Seq<CaptureView>>,
    k: int,
    c: CaptureView,
)
    requires
        0 <= k < found.len(),
        captures(found[k], "callee"@, c),
        long_enough(text_between(t.source, c.start, c.end)),
        calls_at(on_self, c.start),
    ensures
        calls_name(
            facts_of(t, file, found, on_self, on_receiver),
            c,
            text_between(t.source, c.start, c.end),
            None,
            true,
        ),
{
    call_is_found(t.source, file, found, k, c);
    let plain = plain_call(t.source, file, found[k]);
    mark_is_found(on_self, c.start);
    qualified_call_is_found(t.source, file, found, on_self, on_receiver, plain);
    let r = receiver_marked(t.source, on_receiver, self_marked(on_self, plain));
    in_either(
        calls_qualified(t.source, file, found, on_self, on_receiver),
        inherits_at(t, file, 0),
        r,
    );
    in_either(
        calls_qualified(t.source, file, found, on_self, on_receiver) + inherits_at(t, file, 0),
        reads_at(t, file, 0),
        r,
    );
    in_either(
        calls_qualified(t.source, file, found, on_self, on_receiver) + inherits_at(t, file, 0)
            + reads_at(t, file, 0),
        writes_at(t, file, 0),
        r,
    );
    in_either(
        calls_qualified(t.source, file, found, on_self, on_receiver) + inherits_at(t, file, 0)
            + reads_at(t, file, 0) + writes_at(t, file, 0),
        type_refs_at(t, file, 0),
        r,
    );
    is_reported(
        facts_of(t, file, found, on_self, on_receiver),
        references_of(t, file, found, on_self, on_receiver),
        r,
    );
}

/// A call without a qualifier that is none on the object itself has the
/// receiver that the first match at its place of the query on named receivers
/// reports.
pub proof fn receivers_qualify_calls(
    t: Syntax,
    file: Seq<char>,
    found: Seq<Seq<CaptureView>>,
    on_self: Seq<Seq<CaptureView>>,
    on_receiver: Seq<Seq<CaptureView>>,
    k: int,
    c: CaptureView,
    m: int,
    d: CaptureView,
    v: CaptureView,
)
    requires
        0 <= k < found.len(),
        captures(found[k], "callee"@, c),
        long_enough(text_between(t.source, c.start, c.end)),
        lacks(found[k], "qualifier"@),
        !calls_at(on_self, c.start),
        0 <= m < on_receiver.len(),
        captures(on_receiver[m], "callee"@, d),
        d.start == c.start,
        captures(on_receiver[m], "receiver"@, v),
        forall|e: int, b: CaptureView| 0 <= e < m
            && #[trigger] captures(on_receiver[e], "callee"@, b)
            ==> b.start != d.start,
    ensures
        calls_name(
            facts_of(t, file, found, on_self, on_receiver),
            c,
            text_between(t.source, c.start, c.end),
            Some(text_between(t.source, v.start, v.end)),
            false,
        ),
{
    call_is_found(t.source, file, found, k, c);
    let plain = plain_call(t.source, file, found[k]);
    mark_is_found(on_self, c.start);
    qualified_call_is_found(t.source, file, found, on_self, on_receiver, plain);
    receiver_is_found(t.source, on_receiver, m, d, v);
    let r = receiver_marked(t.source, on_receiver, self_marked(on_self, plain));
    in_either(
        calls_qualified(t.source, file, found, on_self, on_receiver),
        inherits_at(t, file, 0),
        r,
    );
    in_either(
        calls_qualified(t.source, file, found, on_self, on_receiver) + inherits_at(t, file, 0),
        reads_at(t, file, 0),
        r,
    );
    in_either(
        calls_qualified(t.source, file, found, on_self, on_receiver) + inherits_at(t, file, 0)
            + reads_at(t, file, 0),
        writes_at(t, file, 0),
        r,
    );
    in_either(
        calls_qualified(t.source, file, found, on_self, on_receiver) + inherits_at(t, file, 0)
            + reads_at(t, file, 0) + writes_at(t, file, 0),
        type_refs_at(t, file, 0),
        r,
    );
    is_reported(
        facts_of(t, file, found, on_self, on_receiver),
        references_of(t, file, found, on_self, on_receiver),
        r,
    );
}

} // verus!
