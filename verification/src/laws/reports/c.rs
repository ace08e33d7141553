//! What the facts of C files tell of their nodes.

use crate::extract::c::{
    aggregate_symbols, aliases_in, bindings_at, bindings_in_document_order, bindings_of_nodes,
    declarator_symbol, declarator_symbols, declared, declared_in, definition, facts_of,
    function_declarator, introduced, linkage, local_at, locals_in, namespaces_of, not_read,
    own_type_refs, param_at, params_in, read_of, reads_at, reads_in_document_order,
    reads_of_nodes, references_of, scopes_with, scopes_with_all, symbols_at, symbols_in,
    type_refs_at, type_refs_in, type_refs_in_document_order, type_refs_of_nodes,
    typed_aggregate, write_of, writes_at, writes_in_document_order, writes_of_nodes,
};
use crate::extract::{
    Ctx, at_file_level, calls, definitions_bound, extends, is_section, local_binding,
    module_scope, occurrence_at, reference_at, span_at, static_at, static_in, type_reference_at,
};
use crate::graph::types::{
    BindingKind, BindingView, EntryPointView, RefRole, ReferenceView, Scope, ScopeId, ScopeKind,
    SymbolKind, SymbolView, TypeRefContext, Visibility,
};
use crate::items::{in_order_all, in_order_each};
use crate::lang::Language;
use crate::laws::c::{definitions_belong, is_defined, is_read, locals_are_nested, reads_are_sound};
use crate::laws::{belongs, identifiers_apart};
use crate::parse::CaptureView;
use crate::symbol::{DescriptorView, namespace_steps};
use crate::syntax::{Syntax, field_is_child, group_child_bounds};
use crate::text::{byte_count, has_prefix, one_line, other_suffix, own_suffix, text_between};
use super::bound::{
    binds_definition, bound_has_origin, definition_is_bound, has_origin, is_scoped,
    place_is_scoped,
};
use super::calls::{call_is_found, calls_name, captures, lacks, plain_call};
use super::texts::{are_parts, join, joined_comes_apart, prefix_comes_off};
use super::{
    binds, child_stands_in_field, defines_as, earlier_ends_before, extends_module,
    file_level_is_outside, in_either, is_at, is_entered, is_module, is_reported, local_is_bound,
    long_enough, opens_scope, opens_scope_stays, outside_code, reached_is_behind, refers,
    refers_to_type, reported, scope_is_within, starts_with,
};
use vstd::prelude::*;

verus! {

broadcast use group_child_bounds;

/// What the definitions of a file are read from.
spec fn context(t: Syntax, file: Seq<char>) -> Ctx {
    Ctx { tree: t, file, lang: Language::C }
}

/// The steps that lead to the definitions of a file.
spec fn steps(t: Syntax, file: Seq<char>) -> Seq<DescriptorView> {
    namespace_steps(namespaces_of(file))
}

proof fn is_name_kinds()
    ensures
        "function_declarator"@ != "identifier"@,
        "function_declarator"@ != "type_identifier"@,
        "function_declarator"@ != "field_identifier"@,
        "pointer_declarator"@ != "identifier"@,
        "pointer_declarator"@ != "type_identifier"@,
        "pointer_declarator"@ != "field_identifier"@,
        "array_declarator"@ != "identifier"@,
        "array_declarator"@ != "type_identifier"@,
        "array_declarator"@ != "field_identifier"@,
        "init_declarator"@ != "identifier"@,
        "init_declarator"@ != "type_identifier"@,
        "init_declarator"@ != "field_identifier"@,
        "attributed_declarator"@ != "identifier"@,
        "attributed_declarator"@ != "type_identifier"@,
        "attributed_declarator"@ != "field_identifier"@,
        "parenthesized_declarator"@ != "identifier"@,
        "parenthesized_declarator"@ != "type_identifier"@,
        "parenthesized_declarator"@ != "field_identifier"@,
        "("@ != "identifier"@,
        "("@ != "type_identifier"@,
        "("@ != "field_identifier"@,
{
    reveal_strlit("function_declarator");
    reveal_strlit("identifier");
    reveal_strlit("type_identifier");
    reveal_strlit("field_identifier");
    reveal_strlit("pointer_declarator");
    reveal_strlit("array_declarator");
    reveal_strlit("init_declarator");
    reveal_strlit("attributed_declarator");
    reveal_strlit("parenthesized_declarator");
    reveal_strlit("(");
    assert("function_declarator"@.len() != "identifier"@.len());
    assert("function_declarator"@.len() != "type_identifier"@.len());
    assert("function_declarator"@.len() != "field_identifier"@.len());
    assert("pointer_declarator"@.len() != "identifier"@.len());
    assert("pointer_declarator"@.len() != "type_identifier"@.len());
    assert("pointer_declarator"@.len() != "field_identifier"@.len());
    assert("array_declarator"@.len() != "identifier"@.len());
    assert("array_declarator"@.len() != "type_identifier"@.len());
    assert("array_declarator"@[0] != "field_identifier"@[0]);
    assert("init_declarator"@.len() != "identifier"@.len());
    assert("init_declarator"@[0] != "type_identifier"@[0]);
    assert("init_declarator"@.len() != "field_identifier"@.len());
    assert("attributed_declarator"@.len() != "identifier"@.len());
    assert("attributed_declarator"@.len() != "type_identifier"@.len());
    assert("attributed_declarator"@.len() != "field_identifier"@.len());
    assert("parenthesized_declarator"@.len() != "identifier"@.len());
    assert("parenthesized_declarator"@.len() != "type_identifier"@.len());
    assert("parenthesized_declarator"@.len() != "field_identifier"@.len());
    assert("("@.len() != "identifier"@.len());
    assert("("@.len() != "type_identifier"@.len());
    assert("("@.len() != "field_identifier"@.len());
}

proof fn declared_kinds()
    ensures
        "function_declarator"@ != "pointer_declarator"@,
        "function_declarator"@ != "array_declarator"@,
        "function_declarator"@ != "init_declarator"@,
        "function_declarator"@ != "attributed_declarator"@,
        "function_declarator"@ != "parenthesized_declarator"@,
        "function_declarator"@ != "("@,
        "pointer_declarator"@ != "array_declarator"@,
        "pointer_declarator"@ != "init_declarator"@,
        "pointer_declarator"@ != "attributed_declarator"@,
        "pointer_declarator"@ != "parenthesized_declarator"@,
        "pointer_declarator"@ != "("@,
        "array_declarator"@ != "init_declarator"@,
        "array_declarator"@ != "attributed_declarator"@,
        "array_declarator"@ != "parenthesized_declarator"@,
        "array_declarator"@ != "("@,
        "init_declarator"@ != "attributed_declarator"@,
        "init_declarator"@ != "parenthesized_declarator"@,
        "init_declarator"@ != "("@,
        "attributed_declarator"@ != "parenthesized_declarator"@,
        "attributed_declarator"@ != "("@,
        "parenthesized_declarator"@ != "("@,
{
    reveal_strlit("function_declarator");
    reveal_strlit("pointer_declarator");
    reveal_strlit("array_declarator");
    reveal_strlit("init_declarator");
    reveal_strlit("attributed_declarator");
    reveal_strlit("parenthesized_declarator");
    reveal_strlit("(");
    assert("function_declarator"@.len() != "pointer_declarator"@.len());
    assert("function_declarator"@.len() != "array_declarator"@.len());
    assert("function_declarator"@.len() != "init_declarator"@.len());
    assert("function_declarator"@.len() != "attributed_declarator"@.len());
    assert("function_declarator"@.len() != "parenthesized_declarator"@.len());
    assert("function_declarator"@.len() != "("@.len());
    assert("pointer_declarator"@.len() != "array_declarator"@.len());
    assert("pointer_declarator"@.len() != "init_declarator"@.len());
    assert("pointer_declarator"@.len() != "attributed_declarator"@.len());
    assert("pointer_declarator"@.len() != "parenthesized_declarator"@.len());
    assert("pointer_declarator"@.len() != "("@.len());
    assert("array_declarator"@.len() != "init_declarator"@.len());
    assert("array_declarator"@.len() != "attributed_declarator"@.len());
    assert("array_declarator"@.len() != "parenthesized_declarator"@.len());
    assert("array_declarator"@.len() != "("@.len());
    assert("init_declarator"@.len() != "attributed_declarator"@.len());
    assert("init_declarator"@.len() != "parenthesized_declarator"@.len());
    assert("init_declarator"@.len() != "("@.len());
    assert("attributed_declarator"@.len() != "parenthesized_declarator"@.len());
    assert("attributed_declarator"@.len() != "("@.len());
    assert("parenthesized_declarator"@.len() != "("@.len());
}

proof fn symbols_at_kinds()
    ensures
        "function_definition"@ != "declaration"@,
        "function_definition"@ != "type_definition"@,
        "function_definition"@ != "preproc_def"@,
        "function_definition"@ != "preproc_function_def"@,
        "declaration"@ != "type_definition"@,
        "declaration"@ != "preproc_def"@,
        "declaration"@ != "preproc_function_def"@,
        "type_definition"@ != "preproc_def"@,
        "type_definition"@ != "preproc_function_def"@,
        "preproc_def"@ != "preproc_function_def"@,
        "struct_specifier"@ != "function_definition"@,
        "struct_specifier"@ != "declaration"@,
        "struct_specifier"@ != "type_definition"@,
        "struct_specifier"@ != "preproc_def"@,
        "struct_specifier"@ != "preproc_function_def"@,
        "union_specifier"@ != "function_definition"@,
        "union_specifier"@ != "declaration"@,
        "union_specifier"@ != "type_definition"@,
        "union_specifier"@ != "preproc_def"@,
        "union_specifier"@ != "preproc_function_def"@,
        "enum_specifier"@ != "function_definition"@,
        "enum_specifier"@ != "declaration"@,
        "enum_specifier"@ != "type_definition"@,
        "enum_specifier"@ != "preproc_def"@,
        "enum_specifier"@ != "preproc_function_def"@,
{
    reveal_strlit("function_definition");
    reveal_strlit("declaration");
    reveal_strlit("type_definition");
    reveal_strlit("preproc_def");
    reveal_strlit("preproc_function_def");
    reveal_strlit("struct_specifier");
    reveal_strlit("union_specifier");
    reveal_strlit("enum_specifier");
    assert("function_definition"@.len() != "declaration"@.len());
    assert("function_definition"@.len() != "type_definition"@.len());
    assert("function_definition"@.len() != "preproc_def"@.len());
    assert("function_definition"@.len() != "preproc_function_def"@.len());
    assert("declaration"@.len() != "type_definition"@.len());
    assert("declaration"@[0] != "preproc_def"@[0]);
    assert("declaration"@.len() != "preproc_function_def"@.len());
    assert("type_definition"@.len() != "preproc_def"@.len());
    assert("type_definition"@.len() != "preproc_function_def"@.len());
    assert("preproc_def"@.len() != "preproc_function_def"@.len());
    assert("struct_specifier"@.len() != "function_definition"@.len());
    assert("struct_specifier"@.len() != "declaration"@.len());
    assert("struct_specifier"@.len() != "type_definition"@.len());
    assert("struct_specifier"@.len() != "preproc_def"@.len());
    assert("struct_specifier"@.len() != "preproc_function_def"@.len());
    assert("union_specifier"@.len() != "function_definition"@.len());
    assert("union_specifier"@.len() != "declaration"@.len());
    assert("union_specifier"@[0] != "type_definition"@[0]);
    assert("union_specifier"@.len() != "preproc_def"@.len());
    assert("union_specifier"@.len() != "preproc_function_def"@.len());
    assert("enum_specifier"@.len() != "function_definition"@.len());
    assert("enum_specifier"@.len() != "declaration"@.len());
    assert("enum_specifier"@.len() != "type_definition"@.len());
    assert("enum_specifier"@.len() != "preproc_def"@.len());
    assert("enum_specifier"@.len() != "preproc_function_def"@.len());
}

proof fn is_section_kinds()
    ensures
        "function_definition"@ != "preproc_if"@,
        "function_definition"@ != "preproc_ifdef"@,
        "function_definition"@ != "preproc_else"@,
        "function_definition"@ != "preproc_elif"@,
        "function_definition"@ != "preproc_elifdef"@,
        "function_definition"@ != "linkage_specification"@,
        "function_definition"@ != "declaration_list"@,
        "function_definition"@ != "declaration"@,
        "function_definition"@ != "type_definition"@,
        "function_definition"@ != "preproc_def"@,
        "function_definition"@ != "preproc_function_def"@,
        "function_definition"@ != "struct_specifier"@,
        "function_definition"@ != "union_specifier"@,
        "function_definition"@ != "enum_specifier"@,
        "declaration"@ != "preproc_if"@,
        "declaration"@ != "preproc_ifdef"@,
        "declaration"@ != "preproc_else"@,
        "declaration"@ != "preproc_elif"@,
        "declaration"@ != "preproc_elifdef"@,
        "declaration"@ != "linkage_specification"@,
        "declaration"@ != "declaration_list"@,
        "declaration"@ != "type_definition"@,
        "declaration"@ != "preproc_def"@,
        "declaration"@ != "preproc_function_def"@,
        "declaration"@ != "struct_specifier"@,
        "declaration"@ != "union_specifier"@,
        "declaration"@ != "enum_specifier"@,
        "type_definition"@ != "preproc_if"@,
        "type_definition"@ != "preproc_ifdef"@,
        "type_definition"@ != "preproc_else"@,
        "type_definition"@ != "preproc_elif"@,
        "type_definition"@ != "preproc_elifdef"@,
        "type_definition"@ != "linkage_specification"@,
        "type_definition"@ != "declaration_list"@,
        "type_definition"@ != "preproc_def"@,
        "type_definition"@ != "preproc_function_def"@,
        "type_definition"@ != "struct_specifier"@,
        "type_definition"@ != "union_specifier"@,
        "type_definition"@ != "enum_specifier"@,
        "preproc_def"@ != "preproc_if"@,
        "preproc_def"@ != "preproc_ifdef"@,
        "preproc_def"@ != "preproc_else"@,
        "preproc_def"@ != "preproc_elif"@,
        "preproc_def"@ != "preproc_elifdef"@,
        "preproc_def"@ != "linkage_specification"@,
        "preproc_def"@ != "declaration_list"@,
        "preproc_def"@ != "preproc_function_def"@,
        "preproc_def"@ != "struct_specifier"@,
        "preproc_def"@ != "union_specifier"@,
        "preproc_def"@ != "enum_specifier"@,
        "preproc_function_def"@ != "preproc_if"@,
        "preproc_function_def"@ != "preproc_ifdef"@,
        "preproc_function_def"@ != "preproc_else"@,
        "preproc_function_def"@ != "preproc_elif"@,
        "preproc_function_def"@ != "preproc_elifdef"@,
        "preproc_function_def"@ != "linkage_specification"@,
        "preproc_function_def"@ != "declaration_list"@,
        "preproc_function_def"@ != "struct_specifier"@,
        "preproc_function_def"@ != "union_specifier"@,
        "preproc_function_def"@ != "enum_specifier"@,
        "struct_specifier"@ != "preproc_if"@,
        "struct_specifier"@ != "preproc_ifdef"@,
        "struct_specifier"@ != "preproc_else"@,
        "struct_specifier"@ != "preproc_elif"@,
        "struct_specifier"@ != "preproc_elifdef"@,
        "struct_specifier"@ != "linkage_specification"@,
        "struct_specifier"@ != "declaration_list"@,
        "struct_specifier"@ != "union_specifier"@,
        "struct_specifier"@ != "enum_specifier"@,
        "union_specifier"@ != "preproc_if"@,
        "union_specifier"@ != "preproc_ifdef"@,
        "union_specifier"@ != "preproc_else"@,
        "union_specifier"@ != "preproc_elif"@,
        "union_specifier"@ != "preproc_elifdef"@,
        "union_specifier"@ != "linkage_specification"@,
        "union_specifier"@ != "declaration_list"@,
        "union_specifier"@ != "enum_specifier"@,
        "enum_specifier"@ != "preproc_if"@,
        "enum_specifier"@ != "preproc_ifdef"@,
        "enum_specifier"@ != "preproc_else"@,
        "enum_specifier"@ != "preproc_elif"@,
        "enum_specifier"@ != "preproc_elifdef"@,
        "enum_specifier"@ != "linkage_specification"@,
        "enum_specifier"@ != "declaration_list"@,
{
    reveal_strlit("function_definition");
    reveal_strlit("preproc_if");
    reveal_strlit("preproc_ifdef");
    reveal_strlit("preproc_else");
    reveal_strlit("preproc_elif");
    reveal_strlit("preproc_elifdef");
    reveal_strlit("linkage_specification");
    reveal_strlit("declaration_list");
    reveal_strlit("declaration");
    reveal_strlit("type_definition");
    reveal_strlit("preproc_def");
    reveal_strlit("preproc_function_def");
    reveal_strlit("struct_specifier");
    reveal_strlit("union_specifier");
    reveal_strlit("enum_specifier");
    assert("function_definition"@.len() != "preproc_if"@.len());
    assert("function_definition"@.len() != "preproc_ifdef"@.len());
    assert("function_definition"@.len() != "preproc_else"@.len());
    assert("function_definition"@.len() != "preproc_elif"@.len());
    assert("function_definition"@.len() != "preproc_elifdef"@.len());
    assert("function_definition"@.len() != "linkage_specification"@.len());
    assert("function_definition"@.len() != "declaration_list"@.len());
    assert("function_definition"@.len() != "declaration"@.len());
    assert("function_definition"@.len() != "type_definition"@.len());
    assert("function_definition"@.len() != "preproc_def"@.len());
    assert("function_definition"@.len() != "preproc_function_def"@.len());
    assert("function_definition"@.len() != "struct_specifier"@.len());
    assert("function_definition"@.len() != "union_specifier"@.len());
    assert("function_definition"@.len() != "enum_specifier"@.len());
    assert("declaration"@.len() != "preproc_if"@.len());
    assert("declaration"@.len() != "preproc_ifdef"@.len());
    assert("declaration"@.len() != "preproc_else"@.len());
    assert("declaration"@.len() != "preproc_elif"@.len());
    assert("declaration"@.len() != "preproc_elifdef"@.len());
    assert("declaration"@.len() != "linkage_specification"@.len());
    assert("declaration"@.len() != "declaration_list"@.len());
    assert("declaration"@.len() != "type_definition"@.len());
    assert("declaration"@[0] != "preproc_def"@[0]);
    assert("declaration"@.len() != "preproc_function_def"@.len());
    assert("declaration"@.len() != "struct_specifier"@.len());
    assert("declaration"@.len() != "union_specifier"@.len());
    assert("declaration"@.len() != "enum_specifier"@.len());
    assert("type_definition"@.len() != "preproc_if"@.len());
    assert("type_definition"@.len() != "preproc_ifdef"@.len());
    assert("type_definition"@.len() != "preproc_else"@.len());
    assert("type_definition"@.len() != "preproc_elif"@.len());
    assert("type_definition"@[0] != "preproc_elifdef"@[0]);
    assert("type_definition"@.len() != "linkage_specification"@.len());
    assert("type_definition"@.len() != "declaration_list"@.len());
    assert("type_definition"@.len() != "preproc_def"@.len());
    assert("type_definition"@.len() != "preproc_function_def"@.len());
    assert("type_definition"@.len() != "struct_specifier"@.len());
    assert("type_definition"@[0] != "union_specifier"@[0]);
    assert("type_definition"@.len() != "enum_specifier"@.len());
    assert("preproc_def"@.len() != "preproc_if"@.len());
    assert("preproc_def"@.len() != "preproc_ifdef"@.len());
    assert("preproc_def"@.len() != "preproc_else"@.len());
    assert("preproc_def"@.len() != "preproc_elif"@.len());
    assert("preproc_def"@.len() != "preproc_elifdef"@.len());
    assert("preproc_def"@.len() != "linkage_specification"@.len());
    assert("preproc_def"@.len() != "declaration_list"@.len());
    assert("preproc_def"@.len() != "preproc_function_def"@.len());
    assert("preproc_def"@.len() != "struct_specifier"@.len());
    assert("preproc_def"@.len() != "union_specifier"@.len());
    assert("preproc_def"@.len() != "enum_specifier"@.len());
    assert("preproc_function_def"@.len() != "preproc_if"@.len());
    assert("preproc_function_def"@.len() != "preproc_ifdef"@.len());
    assert("preproc_function_def"@.len() != "preproc_else"@.len());
    assert("preproc_function_def"@.len() != "preproc_elif"@.len());
    assert("preproc_function_def"@.len() != "preproc_elifdef"@.len());
    assert("preproc_function_def"@.len() != "linkage_specification"@.len());
    assert("preproc_function_def"@.len() != "declaration_list"@.len());
    assert("preproc_function_def"@.len() != "struct_specifier"@.len());
    assert("preproc_function_def"@.len() != "union_specifier"@.len());
    assert("preproc_function_def"@.len() != "enum_specifier"@.len());
    assert("struct_specifier"@.len() != "preproc_if"@.len());
    assert("struct_specifier"@.len() != "preproc_ifdef"@.len());
    assert("struct_specifier"@.len() != "preproc_else"@.len());
    assert("struct_specifier"@.len() != "preproc_elif"@.len());
    assert("struct_specifier"@.len() != "preproc_elifdef"@.len());
    assert("struct_specifier"@.len() != "linkage_specification"@.len());
    assert("struct_specifier"@[0] != "declaration_list"@[0]);
    assert("struct_specifier"@.len() != "union_specifier"@.len());
    assert("struct_specifier"@.len() != "enum_specifier"@.len());
    assert("union_specifier"@.len() != "preproc_if"@.len());
    assert("union_specifier"@.len() != "preproc_ifdef"@.len());
    assert("union_specifier"@.len() != "preproc_else"@.len());
    assert("union_specifier"@.len() != "preproc_elif"@.len());
    assert("union_specifier"@[0] != "preproc_elifdef"@[0]);
    assert("union_specifier"@.len() != "linkage_specification"@.len());
    assert("union_specifier"@.len() != "declaration_list"@.len());
    assert("union_specifier"@.len() != "enum_specifier"@.len());
    assert("enum_specifier"@.len() != "preproc_if"@.len());
    assert("enum_specifier"@.len() != "preproc_ifdef"@.len());
    assert("enum_specifier"@.len() != "preproc_else"@.len());
    assert("enum_specifier"@.len() != "preproc_elif"@.len());
    assert("enum_specifier"@.len() != "preproc_elifdef"@.len());
    assert("enum_specifier"@.len() != "linkage_specification"@.len());
    assert("enum_specifier"@.len() != "declaration_list"@.len());
}

proof fn own_type_refs_kinds()
    ensures
        "function_definition"@ != "parameter_declaration"@,
        "function_definition"@ != "field_declaration"@,
        "parameter_declaration"@ != "field_declaration"@,
        "struct_specifier"@ != "function_definition"@,
        "struct_specifier"@ != "parameter_declaration"@,
        "struct_specifier"@ != "field_declaration"@,
        "union_specifier"@ != "function_definition"@,
        "union_specifier"@ != "parameter_declaration"@,
        "union_specifier"@ != "field_declaration"@,
        "enum_specifier"@ != "function_definition"@,
        "enum_specifier"@ != "parameter_declaration"@,
        "enum_specifier"@ != "field_declaration"@,
{
    reveal_strlit("function_definition");
    reveal_strlit("parameter_declaration");
    reveal_strlit("field_declaration");
    reveal_strlit("struct_specifier");
    reveal_strlit("union_specifier");
    reveal_strlit("enum_specifier");
    assert("function_definition"@.len() != "parameter_declaration"@.len());
    assert("function_definition"@.len() != "field_declaration"@.len());
    assert("parameter_declaration"@.len() != "field_declaration"@.len());
    assert("struct_specifier"@.len() != "function_definition"@.len());
    assert("struct_specifier"@.len() != "parameter_declaration"@.len());
    assert("struct_specifier"@.len() != "field_declaration"@.len());
    assert("union_specifier"@.len() != "function_definition"@.len());
    assert("union_specifier"@.len() != "parameter_declaration"@.len());
    assert("union_specifier"@.len() != "field_declaration"@.len());
    assert("enum_specifier"@.len() != "function_definition"@.len());
    assert("enum_specifier"@.len() != "parameter_declaration"@.len());
    assert("enum_specifier"@.len() != "field_declaration"@.len());
}

proof fn type_leaf_of_kinds()
    ensures
        "function_definition"@ != "type_identifier"@,
        "function_definition"@ != "struct_specifier"@,
        "function_definition"@ != "union_specifier"@,
        "function_definition"@ != "enum_specifier"@,
        "parameter_declaration"@ != "type_identifier"@,
        "parameter_declaration"@ != "struct_specifier"@,
        "parameter_declaration"@ != "union_specifier"@,
        "parameter_declaration"@ != "enum_specifier"@,
        "field_declaration"@ != "type_identifier"@,
        "field_declaration"@ != "struct_specifier"@,
        "field_declaration"@ != "union_specifier"@,
        "field_declaration"@ != "enum_specifier"@,
        "struct_specifier"@ != "type_identifier"@,
        "struct_specifier"@ != "union_specifier"@,
        "struct_specifier"@ != "enum_specifier"@,
        "union_specifier"@ != "type_identifier"@,
        "union_specifier"@ != "enum_specifier"@,
        "enum_specifier"@ != "type_identifier"@,
{
    reveal_strlit("function_definition");
    reveal_strlit("type_identifier");
    reveal_strlit("struct_specifier");
    reveal_strlit("union_specifier");
    reveal_strlit("enum_specifier");
    reveal_strlit("parameter_declaration");
    reveal_strlit("field_declaration");
    assert("function_definition"@.len() != "type_identifier"@.len());
    assert("function_definition"@.len() != "struct_specifier"@.len());
    assert("function_definition"@.len() != "union_specifier"@.len());
    assert("function_definition"@.len() != "enum_specifier"@.len());
    assert("parameter_declaration"@.len() != "type_identifier"@.len());
    assert("parameter_declaration"@.len() != "struct_specifier"@.len());
    assert("parameter_declaration"@.len() != "union_specifier"@.len());
    assert("parameter_declaration"@.len() != "enum_specifier"@.len());
    assert("field_declaration"@.len() != "type_identifier"@.len());
    assert("field_declaration"@.len() != "struct_specifier"@.len());
    assert("field_declaration"@.len() != "union_specifier"@.len());
    assert("field_declaration"@.len() != "enum_specifier"@.len());
    assert("struct_specifier"@.len() != "type_identifier"@.len());
    assert("struct_specifier"@.len() != "union_specifier"@.len());
    assert("struct_specifier"@.len() != "enum_specifier"@.len());
    assert("union_specifier"@[0] != "type_identifier"@[0]);
    assert("union_specifier"@.len() != "enum_specifier"@.len());
    assert("enum_specifier"@.len() != "type_identifier"@.len());
}

proof fn introduced_kinds()
    ensures
        "function_definition"@ != "declaration"@,
{
    reveal_strlit("function_definition");
    reveal_strlit("declaration");
    assert("function_definition"@.len() != "declaration"@.len());
}

proof fn scopes_with_kinds()
    ensures
        "function_definition"@ != "compound_statement"@,
{
    reveal_strlit("function_definition");
    reveal_strlit("compound_statement");
    assert("function_definition"@.len() != "compound_statement"@.len());
}

proof fn bindings_reported(
    t: Syntax,
    file: Seq<char>,
    found: Seq<Seq<CaptureView>>,
    i: int,
    b: BindingView,
)
    requires
        t.nested(),
        0 <= i < t.after(0),
        introduced(t, facts_of(t, file, found).scopes, i).contains(b),
    ensures
        facts_of(t, file, found).bindings.contains(b),
{
    let scopes = facts_of(t, file, found).scopes;
    bindings_in_document_order(t, scopes, 0);
    let k = choose|k: int| 0 <= k < introduced(t, scopes, i).len()
        && introduced(t, scopes, i)[k] == b;
    in_order_each(bindings_of_nodes(t, scopes), 0, t.after(0), i, k);
    assert(bindings_at(t, scopes, 0).contains(b));
    starts_with(
        facts_of(t, file, found).bindings,
        bindings_at(t, facts_of(t, file, found).scopes, 0),
        b,
    );
}

proof fn type_refs_reported(
    t: Syntax,
    file: Seq<char>,
    found: Seq<Seq<CaptureView>>,
    i: int,
    r: ReferenceView,
)
    requires
        t.nested(),
        0 <= i < t.after(0),
        own_type_refs(t, file, i).contains(r),
    ensures
        reported(facts_of(t, file, found), r),
{
    type_refs_in_document_order(t, file, 0);
    let k = choose|k: int| 0 <= k < own_type_refs(t, file, i).len()
        && own_type_refs(t, file, i)[k] == r;
    in_order_each(type_refs_of_nodes(t, file), 0, t.after(0), i, k);
    assert(type_refs_at(t, file, 0).contains(r));
    in_either(calls(t.source, file, found), type_refs_at(t, file, 0), r);
    in_either(calls(t.source, file, found) + type_refs_at(t, file, 0), reads_at(t, file, 0), r);
    in_either(
        calls(t.source, file, found) + type_refs_at(t, file, 0) + reads_at(t, file, 0),
        writes_at(t, file, 0),
        r,
    );
    is_reported(facts_of(t, file, found), references_of(t, file, found), r);
}

proof fn reads_reported(
    t: Syntax,
    file: Seq<char>,
    found: Seq<Seq<CaptureView>>,
    i: int,
    r: ReferenceView,
)
    requires
        t.nested(),
        0 <= i < t.after(0),
        forall|j: int, k: int| t.has(j) && t.kind(j) == "identifier"@
            && j < k < #[trigger] t.after(j)
            ==> #[trigger] t.kind(k) != "identifier"@,
        read_of(t, file, i).contains(r),
    ensures
        reported(facts_of(t, file, found), r),
{
    reads_in_document_order(t, file, 0);
    let k = choose|k: int| 0 <= k < read_of(t, file, i).len() && read_of(t, file, i)[k] == r;
    in_order_each(reads_of_nodes(t, file), 0, t.after(0), i, k);
    assert(reads_at(t, file, 0).contains(r));
    in_either(calls(t.source, file, found) + type_refs_at(t, file, 0), reads_at(t, file, 0), r);
    in_either(
        calls(t.source, file, found) + type_refs_at(t, file, 0) + reads_at(t, file, 0),
        writes_at(t, file, 0),
        r,
    );
    is_reported(facts_of(t, file, found), references_of(t, file, found), r);
}

proof fn writes_reported(
    t: Syntax,
    file: Seq<char>,
    found: Seq<Seq<CaptureView>>,
    i: int,
    r: ReferenceView,
)
    requires
        t.nested(),
        0 <= i < t.after(0),
        write_of(t, file, i).contains(r),
    ensures
        reported(facts_of(t, file, found), r),
{
    writes_in_document_order(t, file, 0);
    let k = choose|k: int| 0 <= k < write_of(t, file, i).len() && write_of(t, file, i)[k] == r;
    in_order_each(writes_of_nodes(t, file), 0, t.after(0), i, k);
    assert(writes_at(t, file, 0).contains(r));
    in_either(
        calls(t.source, file, found) + type_refs_at(t, file, 0) + reads_at(t, file, 0),
        writes_at(t, file, 0),
        r,
    );
    is_reported(facts_of(t, file, found), references_of(t, file, found), r);
}

proof fn declarator_symbols_has(
    c: Ctx,
    prefix: Seq<DescriptorView>,
    i: int,
    lo: int,
    hi: int,
    j: int,
    x: SymbolView,
)
    requires
        0 <= lo,
        hi <= c.tree.len(),
        c.tree.reaches(lo, hi, j),
        ((if c.tree.in_field(j, "declarator"@) { declarator_symbol(c, prefix, i, j) } else { Seq::empty() })).contains(
            x,
        ),
    ensures
        declarator_symbols(c, prefix, i, lo, hi).contains(x),
    decreases hi - lo,
{
    let own = (if c.tree.in_field(lo, "declarator"@) { declarator_symbol(c, prefix, i, lo) } else { Seq::empty() });
    let rest = declarator_symbols(c, prefix, i, c.tree.next(lo, hi), hi);
    if j != lo {
        declarator_symbols_has(c, prefix, i, c.tree.next(lo, hi), hi, j, x);
    }
    in_either(own, rest, x);
}

proof fn aliases_in_has(
    c: Ctx,
    prefix: Seq<DescriptorView>,
    i: int,
    lo: int,
    hi: int,
    j: int,
    x: SymbolView,
)
    requires
        0 <= lo,
        hi <= c.tree.len(),
        c.tree.reaches(lo, hi, j),
        ((match declared(c.tree, j) { Some((name, _)) => if c.tree.in_field(j, "declarator"@) { seq![ definition( c, prefix, i, name, SymbolKind::TypeAlias, Visibility::Public, DescriptorView::Type(name), ), ] } else { Seq::empty() }, None => Seq::empty(), })).contains(
            x,
        ),
    ensures
        aliases_in(c, prefix, i, lo, hi).contains(x),
    decreases hi - lo,
{
    let own = (match declared(c.tree, lo) { Some((name, _)) => if c.tree.in_field(lo, "declarator"@) { seq![ definition( c, prefix, i, name, SymbolKind::TypeAlias, Visibility::Public, DescriptorView::Type(name), ), ] } else { Seq::empty() }, None => Seq::empty(), });
    let rest = aliases_in(c, prefix, i, c.tree.next(lo, hi), hi);
    if j != lo {
        aliases_in_has(c, prefix, i, c.tree.next(lo, hi), hi, j, x);
    }
    in_either(own, rest, x);
}

proof fn symbols_in_has(
    c: Ctx,
    prefix: Seq<DescriptorView>,
    lo: int,
    hi: int,
    j: int,
    x: SymbolView,
)
    requires
        0 <= lo,
        hi <= c.tree.len(),
        c.tree.reaches(lo, hi, j),
        symbols_at(c, prefix, j).contains(x),
    ensures
        symbols_in(c, prefix, lo, hi).contains(x),
    decreases hi - lo,
{
    let own = symbols_at(c, prefix, lo);
    let rest = symbols_in(c, prefix, c.tree.next(lo, hi), hi);
    if j != lo {
        symbols_in_has(c, prefix, c.tree.next(lo, hi), hi, j, x);
    }
    in_either(own, rest, x);
}

proof fn params_in_has(t: Syntax, scopes: Seq<Scope>, lo: int, hi: int, j: int, x: BindingView)
    requires
        0 <= lo,
        hi <= t.len(),
        t.reaches(lo, hi, j),
        param_at(t, scopes, j).contains(x),
    ensures
        params_in(t, scopes, lo, hi).contains(x),
    decreases hi - lo,
{
    let own = param_at(t, scopes, lo);
    let rest = params_in(t, scopes, t.next(lo, hi), hi);
    if j != lo {
        params_in_has(t, scopes, t.next(lo, hi), hi, j, x);
    }
    in_either(own, rest, x);
}

proof fn locals_in_has(t: Syntax, scopes: Seq<Scope>, lo: int, hi: int, j: int, x: BindingView)
    requires
        0 <= lo,
        hi <= t.len(),
        t.reaches(lo, hi, j),
        ((if t.in_field(j, "declarator"@) { local_at(t, scopes, j) } else { Seq::empty() })).contains(
            x,
        ),
    ensures
        locals_in(t, scopes, lo, hi).contains(x),
    decreases hi - lo,
{
    let own = (if t.in_field(lo, "declarator"@) { local_at(t, scopes, lo) } else { Seq::empty() });
    let rest = locals_in(t, scopes, t.next(lo, hi), hi);
    if j != lo {
        locals_in_has(t, scopes, t.next(lo, hi), hi, j, x);
    }
    in_either(own, rest, x);
}

/// Whether a node holds parts of the file: a section of the preprocessor, or the
/// declarations of a linkage.
pub open spec fn is_part(t: Syntax, i: int) -> bool {
    ||| t.kind(i) == "preproc_if"@
    ||| t.kind(i) == "preproc_ifdef"@
    ||| t.kind(i) == "preproc_else"@
    ||| t.kind(i) == "preproc_elif"@
    ||| t.kind(i) == "preproc_elifdef"@
    ||| t.kind(i) == "linkage_specification"@
    ||| t.kind(i) == "declaration_list"@
}

/// Whether node `i` stands at the top of the file, or in a part of the file that does.
pub open spec fn at_top(t: Syntax, i: int) -> bool
    decreases i,
{
    t.has_child(0, i) || exists|owner: int|
        #![trigger t.has_child(owner, i)]
        0 < owner < i && at_top(t, owner) && is_part(t, owner) && t.has_child(owner, i)
}

proof fn top_is_defined(c: Ctx, prefix: Seq<DescriptorView>, i: int, x: SymbolView)
    requires
        at_top(c.tree, i),
        symbols_at(c, prefix, i).contains(x),
    ensures
        symbols_in(c, prefix, 1, c.tree.after(0)).contains(x),
    decreases i,
{
    let t = c.tree;
    if t.has_child(0, i) {
        symbols_in_has(c, prefix, 1, t.after(0), i, x);
    } else {
        let owner = choose|owner: int|
            #![trigger t.has_child(owner, i)]
            0 < owner < i && at_top(t, owner) && is_part(t, owner) && t.has_child(owner, i);
        symbols_in_has(c, prefix, owner + 1, t.after(owner), i, x);
        top_is_defined(c, prefix, owner, x);
    }
}

/// Whether node `i` is marked as `static`.
pub open spec fn is_static(t: Syntax, i: int) -> bool {
    exists|m: int| #[trigger] t.has_child(i, m) && t.kind(m) == "storage_class_specifier"@
        && t.text(m) == "static"@
}

/// What is seen of node `i`: it is private where it is `static`.
pub open spec fn shown(t: Syntax, i: int) -> Visibility {
    if is_static(t, i) {
        Visibility::Private
    } else {
        Visibility::Public
    }
}

proof fn static_is_among(t: Syntax, lo: int, hi: int)
    ensures
        static_in(t, lo, hi) <==> exists|m: int| #[trigger] t.reaches(lo, hi, m)
            && t.kind(m) == "storage_class_specifier"@ && t.text(m) == "static"@,
    decreases hi - lo,
{
    if lo < hi {
        static_is_among(t, t.next(lo, hi), hi);
        if static_in(t, lo, hi) {
            if t.kind(lo) == "storage_class_specifier"@ && t.text(lo) == "static"@ {
                assert(t.reaches(lo, hi, lo));
            } else {
                let m = choose|m: int| #[trigger] t.reaches(t.next(lo, hi), hi, m)
                    && t.kind(m) == "storage_class_specifier"@ && t.text(m) == "static"@;
                assert(t.reaches(lo, hi, m));
            }
        } else {
            assert forall|m: int| #[trigger] t.reaches(lo, hi, m) implies !(t.kind(m) == "storage_class_specifier"@ && t.text(m) == "static"@) by {
                if m != lo {
                    assert(t.reaches(t.next(lo, hi), hi, m));
                }
            }
        }
    }
}

proof fn static_is_child(t: Syntax, i: int)
    requires
        t.has(i),
    ensures
        static_at(t, i) == is_static(t, i),
{
    static_is_among(t, i + 1, t.after(i));
    if static_at(t, i) {
        let m = choose|m: int| #[trigger] t.reaches(i + 1, t.after(i), m)
            && t.kind(m) == "storage_class_specifier"@ && t.text(m) == "static"@;
        assert(t.has_child(i, m));
    }
    if is_static(t, i) {
        let m = choose|m: int| #[trigger] t.has_child(i, m)
            && t.kind(m) == "storage_class_specifier"@ && t.text(m) == "static"@;
        assert(t.reaches(i + 1, t.after(i), m));
    }
}

/// Whether the declarator `d` introduces the name `n`, and whether as that of
/// a function: it is that name, or the declarator inside it introduces it.
pub open spec fn introduces(t: Syntax, d: int, n: int, function: bool) -> bool
    decreases n - d,
{
    if d >= n {
        d == n && !function
            && (t.kind(d) == "identifier"@ || t.kind(d) == "type_identifier"@ || t.kind(d) == "field_identifier"@)
    } else if t.kind(d) == "function_declarator"@ {
        t.child(d, "declarator"@) matches Some(inner) && d < inner <= n && function
            && (introduces(t, inner, n, true) || introduces(t, inner, n, false))
    } else if t.kind(d) == "pointer_declarator"@ || t.kind(d) == "array_declarator"@
        || t.kind(d) == "init_declarator"@ {
        t.child(d, "declarator"@) matches Some(inner) && d < inner <= n
            && introduces(t, inner, n, function)
    } else if t.kind(d) == "attributed_declarator"@ {
        t.child(d, "declarator"@) is None && d + 1 < t.after(d) && d + 1 <= n
            && introduces(t, d + 1, n, function)
    } else if t.kind(d) == "parenthesized_declarator"@ {
        t.child(d, "declarator"@) is None && t.kind(d + 1) == "("@ && t.after(d + 1) == d + 2
            && d + 2 < t.after(d) && d + 2 <= n && introduces(t, d + 2, n, function)
    } else {
        false
    }
}

proof fn introduced_is_declared(t: Syntax, d: int, n: int, function: bool)
    requires
        t.has(d),
        introduces(t, d, n, function),
    ensures
        declared(t, d) == Some((t.text(n), function)),
    decreases n - d,
{
    is_name_kinds();
    declared_kinds();
    if d < n {
        if t.kind(d) == "attributed_declarator"@ {
            introduced_is_declared(t, d + 1, n, function);
            assert(declared_in(t, d + 1, t.after(d)) == declared(t, d + 1));
        } else if t.kind(d) == "parenthesized_declarator"@ {
            introduced_is_declared(t, d + 2, n, function);
            assert(t.child(d + 1, "declarator"@) is None);
            assert(declared_in(t, d + 2, d + 2) is None);
            assert(declared(t, d + 1) is None);
            assert(declared_in(t, d + 2, t.after(d)) == declared(t, d + 2));
            assert(declared_in(t, d + 1, t.after(d)) == declared_in(t, d + 2, t.after(d)));
        } else {
            let inner = t.child(d, "declarator"@)->0;
            if t.kind(d) == "function_declarator"@ {
                if introduces(t, inner, n, true) {
                    introduced_is_declared(t, inner, n, true);
                } else {
                    introduced_is_declared(t, inner, n, false);
                }
            } else {
                introduced_is_declared(t, inner, n, function);
            }
        }
    }
}

/// A function at the top of a C file is defined under the name that its
/// declarator introduces. It is private where it is `static`.
pub proof fn functions_are_defined(
    t: Syntax,
    file: Seq<char>,
    found: Seq<Seq<CaptureView>>,
    i: int,
    d: int,
    n: int,
    function: bool,
)
    requires
        at_top(t, i),
        t.has(i),
        t.kind(i) == "function_definition"@,
        t.child(i, "declarator"@) == Some(d),
        introduces(t, d, n, function),
    ensures
        defines_as(facts_of(t, file, found), t, i, t.text(n), SymbolKind::Function, shown(t, i)),
{
    symbols_at_kinds();
    is_section_kinds();
    let c = context(t, file);
    let prefix = steps(t, file);
    introduced_is_declared(t, d, n, function);
    static_is_child(t, i);
    let x = symbols_at(c, prefix, i)[0];
    assert(symbols_at(c, prefix, i).contains(x));
    top_is_defined(c, prefix, i, x);
    starts_with(facts_of(t, file, found).symbols, symbols_in(c, prefix, 1, t.after(0)), x);
}

/// A function with the name `main` at the top of a C file is where the program
/// starts.
pub proof fn programs_start_at_main(
    t: Syntax,
    file: Seq<char>,
    found: Seq<Seq<CaptureView>>,
    i: int,
    d: int,
    n: int,
    function: bool,
)
    requires
        at_top(t, i),
        t.has(i),
        t.kind(i) == "function_definition"@,
        t.child(i, "declarator"@) == Some(d),
        introduces(t, d, n, function),
        t.text(n) == "main"@,
    ensures
        is_entered(facts_of(t, file, found), t, i, t.text(n), EntryPointView::Main),
{
    symbols_at_kinds();
    is_section_kinds();
    let c = context(t, file);
    let prefix = steps(t, file);
    introduced_is_declared(t, d, n, function);
    static_is_child(t, i);
    let x = symbols_at(c, prefix, i)[0];
    assert(x.entry_points[0] == EntryPointView::Main);
    assert(symbols_at(c, prefix, i).contains(x));
    top_is_defined(c, prefix, i, x);
    starts_with(facts_of(t, file, found).symbols, symbols_in(c, prefix, 1, t.after(0)), x);
}

/// Each name that a declaration at the top of a C file introduces is defined:
/// as a function where it is declared as one, as a static variable otherwise.
pub proof fn declarations_are_defined(
    t: Syntax,
    file: Seq<char>,
    found: Seq<Seq<CaptureView>>,
    i: int,
    d: int,
    n: int,
    function: bool,
)
    requires
        at_top(t, i),
        t.has(i),
        t.kind(i) == "declaration"@,
        t.has_child(i, d),
        t.in_field(d, "declarator"@),
        introduces(t, d, n, function),
    ensures
        defines_as(
            facts_of(t, file, found),
            t,
            i,
            t.text(n),
            (if function { SymbolKind::Function } else { SymbolKind::Static }),
            shown(t, i),
        ),
{
    symbols_at_kinds();
    is_section_kinds();
    let c = context(t, file);
    let prefix = steps(t, file);
    reached_is_behind(t, i + 1, t.after(i), d);
    introduced_is_declared(t, d, n, function);
    static_is_child(t, i);
    let x = declarator_symbol(c, prefix, i, d)[0];
    assert(declarator_symbol(c, prefix, i, d).contains(x));
    declarator_symbols_has(c, prefix, i, i + 1, t.after(i), d, x);
    in_either(
        typed_aggregate(c, prefix, i, linkage(t, i)),
        declarator_symbols(c, prefix, i, i + 1, t.after(i)),
        x,
    );
    top_is_defined(c, prefix, i, x);
    starts_with(facts_of(t, file, found).symbols, symbols_in(c, prefix, 1, t.after(0)), x);
}

/// Each name that a type definition at the top of a C file introduces is a
/// public alias.
pub proof fn type_names_are_defined(
    t: Syntax,
    file: Seq<char>,
    found: Seq<Seq<CaptureView>>,
    i: int,
    d: int,
    n: int,
    function: bool,
)
    requires
        at_top(t, i),
        t.has(i),
        t.kind(i) == "type_definition"@,
        t.has_child(i, d),
        t.in_field(d, "declarator"@),
        introduces(t, d, n, function),
    ensures
        defines_as(
            facts_of(t, file, found),
            t,
            i,
            t.text(n),
            SymbolKind::TypeAlias,
            Visibility::Public,
        ),
{
    symbols_at_kinds();
    is_section_kinds();
    let c = context(t, file);
    let prefix = steps(t, file);
    reached_is_behind(t, i + 1, t.after(i), d);
    introduced_is_declared(t, d, n, function);
    let x = definition(
        c,
        prefix,
        i,
        t.text(n),
        SymbolKind::TypeAlias,
        Visibility::Public,
        DescriptorView::Type(t.text(n)),
    );
    assert(seq![x][0] == x);
    aliases_in_has(c, prefix, i, i + 1, t.after(i), d, x);
    in_either(
        typed_aggregate(c, prefix, i, Visibility::Public),
        aliases_in(c, prefix, i, i + 1, t.after(i)),
        x,
    );
    top_is_defined(c, prefix, i, x);
    starts_with(facts_of(t, file, found).symbols, symbols_in(c, prefix, 1, t.after(0)), x);
}

/// A macro at the top of a C file is defined: as a constant where it takes no
/// arguments, as a function where it does.
pub proof fn macros_are_defined(
    t: Syntax,
    file: Seq<char>,
    found: Seq<Seq<CaptureView>>,
    i: int,
    n: int,
)
    requires
        at_top(t, i),
        t.has(i),
        t.kind(i) == "preproc_def"@ || t.kind(i) == "preproc_function_def"@,
        t.child(i, "name"@) == Some(n),
    ensures
        defines_as(
            facts_of(t, file, found),
            t,
            i,
            t.text(n),
            (if t.kind(i) == "preproc_def"@ { SymbolKind::Const } else { SymbolKind::Function }),
            Visibility::Public,
        ),
{
    symbols_at_kinds();
    is_section_kinds();
    let c = context(t, file);
    let prefix = steps(t, file);
    let x = symbols_at(c, prefix, i)[0];
    assert(symbols_at(c, prefix, i).contains(x));
    top_is_defined(c, prefix, i, x);
    starts_with(facts_of(t, file, found).symbols, symbols_in(c, prefix, 1, t.after(0)), x);
}

/// A struct, a union or an enum with a name and a body at the top of a C file
/// is defined, a union as a struct, whether it stands alone or is the type of a
/// declaration or of a type definition.
pub proof fn aggregates_are_defined(
    t: Syntax,
    file: Seq<char>,
    found: Seq<Seq<CaptureView>>,
    i: int,
    a: int,
    n: int,
)
    requires
        at_top(t, i),
        t.has(i),
        i == a
            || ((t.kind(i) == "declaration"@ || t.kind(i) == "type_definition"@) && t.child(i, "type"@) == Some(a)),
        t.kind(a) == "struct_specifier"@ || t.kind(a) == "union_specifier"@
            || t.kind(a) == "enum_specifier"@,
        t.child(a, "name"@) == Some(n),
        t.child(a, "body"@) is Some,
    ensures
        defines_as(
            facts_of(t, file, found),
            t,
            a,
            t.text(n),
            (if t.kind(a) == "enum_specifier"@ { SymbolKind::Enum } else { SymbolKind::Struct }),
            (if t.kind(i) == "declaration"@ { shown(t, i) } else { Visibility::Public }),
        ),
{
    symbols_at_kinds();
    is_section_kinds();
    let c = context(t, file);
    let prefix = steps(t, file);
    static_is_child(t, i);
    let x = aggregate_symbols(c, prefix, a, if t.kind(i) == "declaration"@ { linkage(t, i) } else { Visibility::Public })[0];
    assert(aggregate_symbols(c, prefix, a, x.visibility)[0] == x);
    if i != a {
        in_either(
            typed_aggregate(c, prefix, i, linkage(t, i)),
            declarator_symbols(c, prefix, i, i + 1, t.after(i)),
            x,
        );
        in_either(
            typed_aggregate(c, prefix, i, Visibility::Public),
            aliases_in(c, prefix, i, i + 1, t.after(i)),
            x,
        );
    }
    top_is_defined(c, prefix, i, x);
    starts_with(facts_of(t, file, found).symbols, symbols_in(c, prefix, 1, t.after(0)), x);
}

/// An assignment, whatever its operator, writes the identifier on its left.
pub proof fn assignments_write(
    t: Syntax,
    file: Seq<char>,
    found: Seq<Seq<CaptureView>>,
    i: int,
    left: int,
)
    requires
        t.nested(),
        0 <= i < t.after(0),
        t.kind(i) == "assignment_expression"@,
        t.child(i, "left"@) == Some(left),
        t.kind(left) == "identifier"@,
        long_enough(t.text(left)),
    ensures
        refers(facts_of(t, file, found), t, left, t.text(left), RefRole::Write),
{
    let x = reference_at(t, file, left, t.text(left), RefRole::Write);
    assert(write_of(t, file, i)[0] == x);
    writes_reported(t, file, found, i, x);
}

/// An identifier is read unless it is called, assigned to or introduced by a
/// declarator.
pub proof fn values_are_read(
    t: Syntax,
    file: Seq<char>,
    found: Seq<Seq<CaptureView>>,
    i: int,
    p: int,
)
    requires
        t.nested(),
        0 <= i < t.after(0),
        t.kind(i) == "identifier"@,
        long_enough(t.text(i)),
        t.parent(i) == Some(p),
        !(t.in_field(i, "function"@) && t.kind(p) == "call_expression"@),
        !(t.in_field(i, "left"@) && t.kind(p) == "assignment_expression"@),
        !t.in_field(i, "declarator"@),
        t.kind(p) != "attributed_declarator"@,
        t.kind(p) != "parenthesized_declarator"@,
        forall|j: int, k: int| t.has(j) && t.kind(j) == "identifier"@
            && j < k < #[trigger] t.after(j)
            ==> #[trigger] t.kind(k) != "identifier"@,
    ensures
        refers(facts_of(t, file, found), t, i, t.text(i), RefRole::Read),
{
    child_stands_in_field(t, p, "function"@);
    child_stands_in_field(t, p, "left"@);
    let x = reference_at(t, file, i, t.text(i), RefRole::Read);
    assert(read_of(t, file, i)[0] == x);
    reads_reported(t, file, found, i, x);
}

/// A function refers to the type that it returns, a parameter and a field to
/// theirs: by its name, or by that of the struct, union or enum that it is.
pub proof fn types_are_referred_to(
    t: Syntax,
    file: Seq<char>,
    found: Seq<Seq<CaptureView>>,
    i: int,
    ty: int,
    n: int,
    position: TypeRefContext,
)
    requires
        t.nested(),
        0 <= i < t.after(0),
        (t.kind(i) == "function_definition"@ && position == TypeRefContext::ReturnType)
            || (t.kind(i) == "parameter_declaration"@ && position == TypeRefContext::ParameterType)
            || (t.kind(i) == "field_declaration"@ && position == TypeRefContext::Field),
        t.child(i, "type"@) == Some(ty),
        (t.kind(ty) == "type_identifier"@ && n == ty)
            || ((t.kind(ty) == "struct_specifier"@ || t.kind(ty) == "union_specifier"@ || t.kind(ty) == "enum_specifier"@) && t.child(ty, "name"@) == Some(n)),
    ensures
        refers_to_type(facts_of(t, file, found), t, n, t.text(n), position),
{
    own_type_refs_kinds();
    type_leaf_of_kinds();
    let x = type_reference_at(t, file, n, t.text(n), position);
    assert(own_type_refs(t, file, i)[0] == x);
    type_refs_reported(t, file, found, i, x);
}

/// Whether the declarator `d` comes to the function declarator `f`.
pub open spec fn comes_to(t: Syntax, d: int, f: int) -> bool
    decreases f - d,
{
    if d >= f {
        d == f && t.kind(d) == "function_declarator"@
    } else {
        t.kind(d) != "function_declarator"@
            && (t.child(d, "declarator"@) matches Some(inner) && d < inner <= f && comes_to(t, inner, f))
    }
}

proof fn function_is_found(t: Syntax, d: int, f: int)
    requires
        t.has(d),
        comes_to(t, d, f),
    ensures
        function_declarator(t, d) == Some(f),
    decreases f - d,
{
    if d < f {
        function_is_found(t, t.child(d, "declarator"@)->0, f);
    }
}

/// Each parameter with a name of a function is bound in the innermost scope at
/// its declarator.
pub proof fn parameters_are_bound(
    t: Syntax,
    file: Seq<char>,
    found: Seq<Seq<CaptureView>>,
    i: int,
    d: int,
    f: int,
    list: int,
    p: int,
    e: int,
    n: int,
    function: bool,
)
    requires
        t.nested(),
        0 <= i < t.after(0),
        t.kind(i) == "function_definition"@,
        t.child(i, "declarator"@) == Some(d),
        comes_to(t, d, f),
        t.child(f, "parameters"@) == Some(list),
        t.has_child(list, p),
        t.kind(p) == "parameter_declaration"@,
        t.child(p, "declarator"@) == Some(e),
        introduces(t, e, n, function),
        facts_of(t, file, found).scopes.len() <= usize::MAX,
    ensures
        binds(facts_of(t, file, found), t.text(n), t.start(e), BindingKind::Param),
{
    introduced_kinds();
    let b = local_binding(
        facts_of(t, file, found).scopes,
        t.text(n),
        t.start(e),
        BindingKind::Param,
        None,
    );
    function_is_found(t, d, f);
    introduced_is_declared(t, e, n, function);
    assert(param_at(t, facts_of(t, file, found).scopes, p)[0] == b);
    params_in_has(t, facts_of(t, file, found).scopes, list + 1, t.after(list), p, b);
    let scopes = facts_of(t, file, found).scopes;
    let x = local_binding(scopes, t.text(n), t.start(e), BindingKind::Param, None);
    bindings_reported(t, file, found, i, x);
    local_is_bound(facts_of(t, file, found), t.text(n), t.start(e), BindingKind::Param, None);
}

/// Each name that a declaration inside a function introduces is bound in the
/// innermost scope at its declarator.
pub proof fn locals_are_bound(
    t: Syntax,
    file: Seq<char>,
    found: Seq<Seq<CaptureView>>,
    i: int,
    d: int,
    n: int,
    function: bool,
)
    requires
        t.nested(),
        0 <= i < t.after(0),
        t.kind(i) == "declaration"@,
        t.has_child(i, d),
        t.in_field(d, "declarator"@),
        introduces(t, d, n, function),
        !outside_code(facts_of(t, file, found).scopes, t.start(d)),
        facts_of(t, file, found).scopes.len() <= usize::MAX,
    ensures
        binds(facts_of(t, file, found), t.text(n), t.start(d), BindingKind::Local),
{
    introduced_kinds();
    let b = local_binding(
        facts_of(t, file, found).scopes,
        t.text(n),
        t.start(d),
        BindingKind::Local,
        None,
    );
    if at_file_level(facts_of(t, file, found).scopes, t.start(d)) {
        file_level_is_outside(facts_of(t, file, found).scopes, t.start(d));
    }
    reached_is_behind(t, i + 1, t.after(i), d);
    introduced_is_declared(t, d, n, function);
    assert(local_at(t, facts_of(t, file, found).scopes, d)[0] == b);
    locals_in_has(t, facts_of(t, file, found).scopes, i + 1, t.after(i), d, b);
    let scopes = facts_of(t, file, found).scopes;
    let x = local_binding(scopes, t.text(n), t.start(d), BindingKind::Local, None);
    bindings_reported(t, file, found, i, x);
    local_is_bound(facts_of(t, file, found), t.text(n), t.start(d), BindingKind::Local, None);
}

// ── Scopes ───────────────────────────────────────────────────────────────────

/// Whether a node opens a scope for what stands in it.
pub open spec fn is_holder(t: Syntax, k: int) -> bool {
    ||| t.kind(k) == "function_definition"@
}

/// The kind of the scope that a node opens.
pub open spec fn scope_kind(t: Syntax, k: int) -> ScopeKind {
    if t.kind(k) == "function_definition"@ {
        ScopeKind::Function
    } else {
        ScopeKind::Block
    }
}

/// Whether a node is the body of a holder.
pub open spec fn is_held(t: Syntax, k: int) -> bool {
    exists|p: int| #![trigger t.child(p, "body"@)] 0 <= p < k && is_holder(t, p)
        && t.child(p, "body"@) == Some(k)
}

/// Whether a node opens a scope of its own: a holder, or a block that is not the
/// body of one.
pub open spec fn opens(t: Syntax, k: int) -> bool {
    (is_holder(t, k) || t.kind(k) == "compound_statement"@) && !is_held(t, k)
}

/// Whether node `j` stands in the body of the holder `k`.
pub open spec fn is_inside(t: Syntax, k: int, j: int) -> bool {
    t.child(k, "body"@) matches Some(b) && b < j < t.after(b)
}

/// Whether `outer` is the innermost node from `from` on that opens a scope around
/// node `j`.
pub open spec fn is_nearest(t: Syntax, from: int, j: int, outer: Option<int>) -> bool {
    match outer {
        Some(a) => from <= a < j && j < t.after(a) && opens(t, a) && forall|k: int| a < k < j
            && j < #[trigger] t.after(k)
            ==> !opens(t, k),
        None => forall|k: int| from <= k < j && j < #[trigger] t.after(k) ==> !opens(t, k),
    }
}

proof fn scopes_are_kept(t: Syntax, i: int, parent: ScopeId, scopes: Seq<Scope>)
    ensures
        extends(scopes_with(t, i, parent, scopes), scopes),
        t.has(i) && (is_holder(t, i) || t.kind(i) == "compound_statement"@)
            ==> extends(
                scopes_with(t, i, parent, scopes),
                scopes.push(
                    Scope { parent: Some(parent), span: span_at(t, i), kind: scope_kind(t, i) },
                ),
            ),
    decreases t.left(i), 0nat,
{
    if t.has(i) {
        scopes_with_kinds();
        let opened = scopes.push(
            Scope { parent: Some(parent), span: span_at(t, i), kind: scope_kind(t, i) },
        );
        let id = scopes.len() as usize;
        if is_holder(t, i) {
            if let Some(body) = t.child(i, "body"@) {
                scopes_are_kept_in(t, body + 1, t.after(body), id, opened);
            }
        } else if t.kind(i) == "compound_statement"@ {
            scopes_are_kept_in(t, i + 1, t.after(i), id, opened);
        } else {
            scopes_are_kept_in(t, i + 1, t.after(i), parent, scopes);
        }
    }
}

proof fn scopes_are_kept_in(t: Syntax, lo: int, hi: int, parent: ScopeId, scopes: Seq<Scope>)
    ensures
        extends(scopes_with_all(t, lo, hi, parent, scopes), scopes),
    decreases t.left(lo), 1nat,
{
    if lo < hi && t.has(lo) {
        scopes_are_kept(t, lo, parent, scopes);
        scopes_are_kept_in(t, t.next(lo, hi), hi, parent, scopes_with(t, lo, parent, scopes));
    }
}

proof fn scope_is_opened(
    t: Syntax,
    i: int,
    parent: ScopeId,
    scopes: Seq<Scope>,
    j: int,
    outer: Option<int>,
)
    requires
        t.nested(),
        t.linked(),
        t.has(i),
        i <= j < t.after(i),
        forall|k: int| #[trigger] is_holder(t, k) ==> !is_held(t, k),
        opens(t, j),
        !is_held(t, i),
        forall|k: int| i <= k < j && j < #[trigger] t.after(k) && is_holder(t, k)
            ==> is_inside(t, k, j),
        is_nearest(t, i, j, outer),
        scopes_with(t, i, parent, scopes).len() <= usize::MAX,
    ensures
        opens_scope(
            scopes_with(t, i, parent, scopes),
            scopes.len() as int,
            t,
            j,
            scope_kind(t, j),
            parent,
            outer,
        ),
    decreases t.left(i), 0nat,
{
    scopes_with_kinds();
    let opened = scopes.push(
        Scope { parent: Some(parent), span: span_at(t, i), kind: scope_kind(t, i) },
    );
    let id = scopes.len() as usize;
    let after = scopes_with(t, i, parent, scopes);
    scopes_are_kept(t, i, parent, scopes);
    if i == j {
        assert(after[scopes.len() as int] == opened[scopes.len() as int]);
    } else {
        let inner = if outer == Some(i) { None } else { outer };
        if is_holder(t, i) {
            assert(opens(t, i));
            assert(after[id as int] == opened[id as int]);
            assert(is_inside(t, i, j));
            let b = t.child(i, "body"@)->0;
            field_is_child(t, i, "body"@);
            assert(is_held(t, b));
            assert forall|k: int| i < k < j && j < #[trigger] t.after(k) implies k >= b by {
                if k < b {
                    earlier_ends_before(t, i + 1, t.after(i), b, k);
                }
            }
            assert forall|c: int| #[trigger] t.reaches(b + 1, t.after(b), c) implies !is_held(t, c) by {
                assert(t.has_child(b, c));
                if is_held(t, c) {
                    let p = choose|p: int| #![trigger t.child(p, "body"@)] 0 <= p < c
                        && is_holder(t, p) && t.child(p, "body"@) == Some(c);
                    field_is_child(t, p, "body"@);
                }
            }
            scope_is_opened_in(t, b + 1, t.after(b), id, opened, j, inner);
            scope_is_within(after, t, i, j, scope_kind(t, j), id, parent, inner, outer);
        } else if t.kind(i) == "compound_statement"@ {
            assert(opens(t, i));
            assert(after[id as int] == opened[id as int]);
            assert forall|c: int| #[trigger] t.reaches(i + 1, t.after(i), c) implies !is_held(t, c) by {
                assert(t.has_child(i, c));
                if is_held(t, c) {
                    let p = choose|p: int| #![trigger t.child(p, "body"@)] 0 <= p < c
                        && is_holder(t, p) && t.child(p, "body"@) == Some(c);
                    field_is_child(t, p, "body"@);
                }
            }
            scope_is_opened_in(t, i + 1, t.after(i), id, opened, j, inner);
            scope_is_within(after, t, i, j, scope_kind(t, j), id, parent, inner, outer);
        } else {
            assert(!opens(t, i));
            assert forall|c: int| #[trigger] t.reaches(i + 1, t.after(i), c) implies !is_held(t, c) by {
                assert(t.has_child(i, c));
                if is_held(t, c) {
                    let p = choose|p: int| #![trigger t.child(p, "body"@)] 0 <= p < c
                        && is_holder(t, p) && t.child(p, "body"@) == Some(c);
                    field_is_child(t, p, "body"@);
                }
            }
            scope_is_opened_in(t, i + 1, t.after(i), parent, scopes, j, outer);
        }
    }
}

proof fn scope_is_opened_in(
    t: Syntax,
    lo: int,
    hi: int,
    parent: ScopeId,
    scopes: Seq<Scope>,
    j: int,
    outer: Option<int>,
)
    requires
        t.nested(),
        t.linked(),
        t.closed_range(lo, hi),
        lo <= j < hi,
        forall|k: int| #[trigger] is_holder(t, k) ==> !is_held(t, k),
        opens(t, j),
        forall|c: int| #[trigger] t.reaches(lo, hi, c) ==> !is_held(t, c),
        forall|k: int| lo <= k < j && j < #[trigger] t.after(k) && is_holder(t, k)
            ==> is_inside(t, k, j),
        is_nearest(t, lo, j, outer),
        scopes_with_all(t, lo, hi, parent, scopes).len() <= usize::MAX,
    ensures
        opens_scope(
            scopes_with_all(t, lo, hi, parent, scopes),
            scopes.len() as int,
            t,
            j,
            scope_kind(t, j),
            parent,
            outer,
        ),
    decreases t.left(lo), 1nat,
{
    let next = t.next(lo, hi);
    assert(t.reaches(lo, hi, lo));
    assert forall|c: int| #[trigger] t.reaches(next, hi, c) implies t.reaches(lo, hi, c) by {}
    let first = scopes_with(t, lo, parent, scopes);
    let all = scopes_with_all(t, lo, hi, parent, scopes);
    scopes_are_kept(t, lo, parent, scopes);
    scopes_are_kept_in(t, next, hi, parent, first);
    if j < t.after(lo) {
        scope_is_opened(t, lo, parent, scopes, j, outer);
        opens_scope_stays(
            first,
            all,
            scopes.len() as int,
            scopes.len() as int,
            t,
            j,
            scope_kind(t, j),
            parent,
            outer,
        );
    } else {
        nearest_is_later(t, lo, next, j, outer);
        scope_is_opened_in(t, next, hi, parent, first, j, outer);
        opens_scope_stays(
            all,
            all,
            first.len() as int,
            scopes.len() as int,
            t,
            j,
            scope_kind(t, j),
            parent,
            outer,
        );
    }
}

proof fn nearest_is_later(t: Syntax, lo: int, next: int, j: int, outer: Option<int>)
    requires
        t.nested(),
        0 <= lo < t.len(),
        next == t.after(lo),
        next <= j,
        is_nearest(t, lo, j, outer),
    ensures
        is_nearest(t, next, j, outer),
{
    if let Some(a) = outer {
        if a < next {
            assert(t.after(a) <= t.after(lo));
        }
    }
}

/// A function opens a scope of its own, and so does each block that is not its
/// body, where only bodies lie around it. Its parent is the scope of the
/// innermost of these around it, or that of the file.
pub proof fn scopes_are_opened(
    t: Syntax,
    file: Seq<char>,
    found: Seq<Seq<CaptureView>>,
    j: int,
    outer: Option<int>,
)
    requires
        t.nested(),
        t.linked(),
        1 <= j < t.after(0),
        opens(t, j),
        forall|k: int| 1 <= k < j && j < #[trigger] t.after(k) && is_holder(t, k)
            ==> is_inside(t, k, j),
        forall|k: int| #[trigger] is_holder(t, k) ==> !is_held(t, k),
        !is_holder(t, 0),
        is_nearest(t, 1, j, outer),
        facts_of(t, file, found).scopes.len() <= usize::MAX,
    ensures
        opens_scope(facts_of(t, file, found).scopes, 1, t, j, scope_kind(t, j), 0, outer),
{
    let first = seq![module_scope(byte_count(t.source) as int)];
    assert forall|c: int| #[trigger] t.reaches(1, t.after(0), c) implies !is_held(t, c) by {
                assert(t.has_child(0, c));
                if is_held(t, c) {
                    let p = choose|p: int| #![trigger t.child(p, "body"@)] 0 <= p < c
                        && is_holder(t, p) && t.child(p, "body"@) == Some(c);
                    field_is_child(t, p, "body"@);
                }
            }
    scope_is_opened_in(t, 1, t.after(0), 0, first, j, outer);
}

// ── Modules ──────────────────────────────────────────────────────────────────

proof fn path_gives_namespaces(root: Seq<char>, parts: Seq<Seq<char>>, ext: Seq<char>)
    requires
        parts.len() > 0,
        are_parts(parts, '/'),
        ext == ".c"@ || ext == ".h"@,
        root == "src/"@ || (root.len() == 0 && !has_prefix(join(parts, '/'), "src/"@)),
    ensures
        namespaces_of(root + join(parts, '/') + ext) == parts,
{
    reveal_strlit(".c");
    reveal_strlit(".h");
    reveal_strlit("src/");
    let body = join(parts, '/');
    let stem = root + body;
    joined_comes_apart(parts, '/');
    own_suffix(stem, ext);
    if ext == ".c"@ {
        other_suffix(stem, ".c"@, ".h"@, 1);
    }
    if ext == ".h"@ {
        other_suffix(stem, ".h"@, ".c"@, 1);
    }
    prefix_comes_off(root, body);
    if root == "src/"@ {
    }
    if root.len() == 0 {
        assert(stem =~= body);
    }
}

/// The module of a C file has the pieces of the path of the file as its names,
/// without `src/` in front and without the extension.
pub proof fn paths_name_modules(
    t: Syntax,
    file: Seq<char>,
    found: Seq<Seq<CaptureView>>,
    root: Seq<char>,
    parts: Seq<Seq<char>>,
    ext: Seq<char>,
)
    requires
        parts.len() > 0,
        are_parts(parts, '/'),
        ext == ".c"@ || ext == ".h"@,
        root == "src/"@ || (root.len() == 0 && !has_prefix(join(parts, '/'), "src/"@)),
        file == root + join(parts, '/') + ext,
    ensures
        is_module(facts_of(t, file, found), parts),
{
    path_gives_namespaces(root, parts, ext);
}

/// Each definition of a file stands in the module of the file where the file is
/// in a namespace: its identity extends that of the module.
pub proof fn definitions_stand_in_modules(
    t: Syntax,
    file: Seq<char>,
    found: Seq<Seq<CaptureView>>,
    k: int,
)
    requires
        0 <= k < facts_of(t, file, found).symbols.len() - 1,
        namespaces_of(file).len() > 0,
    ensures
        extends_module(facts_of(t, file, found), k),
{
    let c = context(t, file);
    let prefix = steps(t, file);
    let f = facts_of(t, file, found);
    definitions_belong(c, prefix, 1, t.after(0));
    let defs = symbols_in(c, prefix, 1, t.after(0));
    assert(f.symbols[k] == defs[k]);
    assert(f.symbols.last() == f.symbols[f.symbols.len() - 1]);
    assert(is_defined(c, prefix, defs[k]));
    assert(belongs(c, prefix, defs[k]));
}

// ── Nothing else is read or written ──────────────────────────────────────────

/// Whether the identifier `i` below `p` stands as a value: it is not called, assigned
/// to or introduced there.
pub open spec fn is_value_below(t: Syntax, p: int, i: int) -> bool {
    &&& t.kind(p) == "call_expression"@ ==> !(t.child(p, "function"@) == Some(i))
    &&& t.kind(p) == "pointer_declarator"@ ==> !(t.in_field(i, "declarator"@))
    &&& t.kind(p) == "function_declarator"@ ==> !(t.in_field(i, "declarator"@))
    &&& t.kind(p) == "init_declarator"@ ==> !(t.in_field(i, "declarator"@))
    &&& t.kind(p) == "array_declarator"@ ==> !(t.in_field(i, "declarator"@))
    &&& t.kind(p) == "declaration"@ ==> !(t.in_field(i, "declarator"@))
    &&& t.kind(p) == "type_definition"@ ==> !(t.in_field(i, "declarator"@))
    &&& t.kind(p) == "function_definition"@ ==> !(t.in_field(i, "declarator"@))
    &&& t.kind(p) == "parameter_declaration"@ ==> !(t.in_field(i, "declarator"@))
    &&& t.kind(p) == "attributed_declarator"@ ==> false
    &&& t.kind(p) == "parenthesized_declarator"@ ==> false
    &&& t.kind(p) == "assignment_expression"@ ==> !(t.child(p, "left"@) == Some(i))
}

/// Each read of a file is of an identifier that is long enough and stands as a
/// value.
pub proof fn reads_are_values(t: Syntax, file: Seq<char>, k: int) -> (at: (int, int))
    requires
        t.nested(),
        t.has(0),
        identifiers_apart(t),
        0 <= k < reads_at(t, file, 0).len(),
    ensures
        0 <= at.1 < t.after(0),
        t.kind(at.1) == "identifier"@,
        long_enough(t.text(at.1)),
        t.parent(at.1) == Some(at.0),
        is_value_below(t, at.0, at.1),
        reads_at(t, file, 0)[k] == reference_at(t, file, at.1, t.text(at.1), RefRole::Read),
{
    reads_are_sound(t, file, k);
    let i = choose|i: int| 0 <= i < t.after(0) && #[trigger] is_read(t, i)
        && reads_at(t, file, 0)[k] == reference_at(t, file, i, t.text(i), RefRole::Read);
    let p = t.parent(i)->0;
    read_is_value(t, p, i);
    (p, i)
}

proof fn read_is_value(t: Syntax, p: int, i: int)
    requires
        t.parent(i) == Some(p),
        !not_read(t, i),
    ensures
        is_value_below(t, p, i),
{
    read_kinds();
}

proof fn read_kinds()
    ensures
        "call_expression"@ != "pointer_declarator"@,
        "call_expression"@ != "function_declarator"@,
        "call_expression"@ != "init_declarator"@,
        "call_expression"@ != "array_declarator"@,
        "call_expression"@ != "declaration"@,
        "call_expression"@ != "type_definition"@,
        "call_expression"@ != "function_definition"@,
        "call_expression"@ != "parameter_declaration"@,
        "call_expression"@ != "attributed_declarator"@,
        "call_expression"@ != "parenthesized_declarator"@,
        "call_expression"@ != "assignment_expression"@,
        "pointer_declarator"@ != "function_declarator"@,
        "pointer_declarator"@ != "init_declarator"@,
        "pointer_declarator"@ != "array_declarator"@,
        "pointer_declarator"@ != "declaration"@,
        "pointer_declarator"@ != "type_definition"@,
        "pointer_declarator"@ != "function_definition"@,
        "pointer_declarator"@ != "parameter_declaration"@,
        "pointer_declarator"@ != "attributed_declarator"@,
        "pointer_declarator"@ != "parenthesized_declarator"@,
        "pointer_declarator"@ != "assignment_expression"@,
        "function_declarator"@ != "init_declarator"@,
        "function_declarator"@ != "array_declarator"@,
        "function_declarator"@ != "declaration"@,
        "function_declarator"@ != "type_definition"@,
        "function_declarator"@ != "function_definition"@,
        "function_declarator"@ != "parameter_declaration"@,
        "function_declarator"@ != "attributed_declarator"@,
        "function_declarator"@ != "parenthesized_declarator"@,
        "function_declarator"@ != "assignment_expression"@,
        "init_declarator"@ != "array_declarator"@,
        "init_declarator"@ != "declaration"@,
        "init_declarator"@ != "type_definition"@,
        "init_declarator"@ != "function_definition"@,
        "init_declarator"@ != "parameter_declaration"@,
        "init_declarator"@ != "attributed_declarator"@,
        "init_declarator"@ != "parenthesized_declarator"@,
        "init_declarator"@ != "assignment_expression"@,
        "array_declarator"@ != "declaration"@,
        "array_declarator"@ != "type_definition"@,
        "array_declarator"@ != "function_definition"@,
        "array_declarator"@ != "parameter_declaration"@,
        "array_declarator"@ != "attributed_declarator"@,
        "array_declarator"@ != "parenthesized_declarator"@,
        "array_declarator"@ != "assignment_expression"@,
        "declaration"@ != "type_definition"@,
        "declaration"@ != "function_definition"@,
        "declaration"@ != "parameter_declaration"@,
        "declaration"@ != "attributed_declarator"@,
        "declaration"@ != "parenthesized_declarator"@,
        "declaration"@ != "assignment_expression"@,
        "type_definition"@ != "function_definition"@,
        "type_definition"@ != "parameter_declaration"@,
        "type_definition"@ != "attributed_declarator"@,
        "type_definition"@ != "parenthesized_declarator"@,
        "type_definition"@ != "assignment_expression"@,
        "function_definition"@ != "parameter_declaration"@,
        "function_definition"@ != "attributed_declarator"@,
        "function_definition"@ != "parenthesized_declarator"@,
        "function_definition"@ != "assignment_expression"@,
        "parameter_declaration"@ != "attributed_declarator"@,
        "parameter_declaration"@ != "parenthesized_declarator"@,
        "parameter_declaration"@ != "assignment_expression"@,
        "attributed_declarator"@ != "parenthesized_declarator"@,
        "attributed_declarator"@ != "assignment_expression"@,
        "parenthesized_declarator"@ != "assignment_expression"@,
{
    reveal_strlit("call_expression");
    reveal_strlit("pointer_declarator");
    reveal_strlit("function_declarator");
    reveal_strlit("init_declarator");
    reveal_strlit("array_declarator");
    reveal_strlit("declaration");
    reveal_strlit("type_definition");
    reveal_strlit("function_definition");
    reveal_strlit("parameter_declaration");
    reveal_strlit("attributed_declarator");
    reveal_strlit("parenthesized_declarator");
    reveal_strlit("assignment_expression");
    assert("call_expression"@.len() == 15);
    assert("pointer_declarator"@.len() == 18);
    assert("function_declarator"@.len() == 19);
    assert("init_declarator"@.len() == 15);
    assert("array_declarator"@.len() == 16);
    assert("declaration"@.len() == 11);
    assert("type_definition"@.len() == 15);
    assert("function_definition"@.len() == 19);
    assert("parameter_declaration"@.len() == 21);
    assert("attributed_declarator"@.len() == 21);
    assert("parenthesized_declarator"@.len() == 24);
    assert("assignment_expression"@.len() == 21);
    assert("call_expression"@[0] != "init_declarator"@[0]);
    assert("call_expression"@[0] != "type_definition"@[0]);
    assert("function_declarator"@[11] != "function_definition"@[11]);
    assert("init_declarator"@[0] != "type_definition"@[0]);
    assert("parameter_declaration"@[0] != "attributed_declarator"@[0]);
    assert("parameter_declaration"@[0] != "assignment_expression"@[0]);
    assert("attributed_declarator"@[1] != "assignment_expression"@[1]);
}

/// Whether node `n` is an identifier that is long enough and that node `i` assigns to.
pub open spec fn is_assigned(t: Syntax, i: int, n: int) -> bool {
    t.kind(n) == "identifier"@ && long_enough(t.text(n)) && t.kind(i) == "assignment_expression"@
        && t.child(i, "left"@) == Some(n)
}

/// Each write of a file is of an identifier that is long enough and that an
/// assignment assigns to.
pub proof fn writes_are_targets(t: Syntax, file: Seq<char>, k: int) -> (at: (int, int))
    requires
        t.nested(),
        t.has(0),
        0 <= k < writes_at(t, file, 0).len(),
    ensures
        0 <= at.0 < t.after(0),
        is_assigned(t, at.0, at.1),
        writes_at(t, file, 0)[k] == reference_at(t, file, at.1, t.text(at.1), RefRole::Write),
{
    let items = writes_of_nodes(t, file);
    let is_one = |r: ReferenceView| exists|i: int, n: int| 0 <= i < t.after(0)
        && #[trigger] is_assigned(t, i, n)
        && r == reference_at(t, file, n, t.text(n), RefRole::Write);
    writes_in_document_order(t, file, 0);
    assert forall|i: int, e: int| 0 <= i < t.after(0) && 0 <= e < items(i).len() implies is_one(#[trigger] items(i)[e]) by {
        assert(is_assigned(t, i, t.child(i, "left"@)->0));
    }
    in_order_all(items, 0, t.after(0), is_one);
    assert(is_one(writes_at(t, file, 0)[k]));
    choose|i: int, n: int| 0 <= i < t.after(0) && #[trigger] is_assigned(t, i, n)
        && writes_at(t, file, 0)[k] == reference_at(t, file, n, t.text(n), RefRole::Write)
}

// ── Nothing else is defined ──────────────────────────────────────────────────

/// Whether node `i` is of a kind that declares symbols of the kind `kind`.
pub open spec fn declares(t: Syntax, i: int, kind: SymbolKind) -> bool {
    match kind {
        SymbolKind::Function => t.kind(i) == "function_definition"@ || t.kind(i) == "declaration"@
            || t.kind(i) == "preproc_function_def"@,
        SymbolKind::Static => t.kind(i) == "declaration"@,
        SymbolKind::TypeAlias => t.kind(i) == "type_definition"@,
        SymbolKind::Const => t.kind(i) == "preproc_def"@,
        SymbolKind::Struct => t.kind(i) == "struct_specifier"@ || t.kind(i) == "union_specifier"@,
        SymbolKind::Enum => t.kind(i) == "enum_specifier"@,
        _ => false,
    }
}

/// The characters at which the signature of a symbol of the kind `kind` at node
/// `i` ends.
pub open spec fn stops_at(t: Syntax, i: int, kind: SymbolKind) -> Seq<char> {
    "{;"@
}

/// Whether a symbol stands at a node that declares symbols of its kind, and has the
/// words of the node up to where it stops for a signature.
pub open spec fn is_declared_by(c: Ctx, s: SymbolView) -> bool {
    exists|i: int| #![trigger occurrence_at(c.tree, c.file, i)] s.occ == occurrence_at(
        c.tree,
        c.file,
        i,
    )
        && s.span == span_at(c.tree, i) && declares(c.tree, i, s.kind)
        && s.signature == one_line(c.tree.text(i), stops_at(c.tree, i, s.kind))
}

/// Whether all symbols do.
pub open spec fn all_declared(c: Ctx, symbols: Seq<SymbolView>) -> bool {
    forall|k: int| 0 <= k < symbols.len() ==> is_declared_by(c, #[trigger] symbols[k])
}

proof fn declarator_symbols_declared(c: Ctx, prefix: Seq<DescriptorView>, i: int, lo: int, hi: int)
    requires
        c.tree.kind(i) == "declaration"@,
    ensures
        all_declared(c, declarator_symbols(c, prefix, i, lo, hi)),
    decreases hi - lo,
{
    if lo < hi {
        declarator_symbols_declared(c, prefix, i, c.tree.next(lo, hi), hi);
    }
}

proof fn aliases_in_declared(c: Ctx, prefix: Seq<DescriptorView>, i: int, lo: int, hi: int)
    requires
        c.tree.kind(i) == "type_definition"@,
    ensures
        all_declared(c, aliases_in(c, prefix, i, lo, hi)),
    decreases hi - lo,
{
    if lo < hi {
        aliases_in_declared(c, prefix, i, c.tree.next(lo, hi), hi);
    }
}

proof fn symbols_at_declared(c: Ctx, prefix: Seq<DescriptorView>, i: int)
    ensures
        all_declared(c, symbols_at(c, prefix, i)),
    decreases c.tree.left(i), 0nat,
{
    let kind = c.tree.kind(i);
    if c.tree.has(i) {
        if is_section(c.tree, i) {
            definitions_declared(c, prefix, i + 1, c.tree.after(i));
        } else if kind != "function_definition"@ {
            if kind == "declaration"@ {
                declarator_symbols_declared(c, prefix, i, i + 1, c.tree.after(i));
            } else if kind == "type_definition"@ {
                aliases_in_declared(c, prefix, i, i + 1, c.tree.after(i));
            }
        }
    }
}

proof fn definitions_declared(c: Ctx, prefix: Seq<DescriptorView>, lo: int, hi: int)
    ensures
        all_declared(c, symbols_in(c, prefix, lo, hi)),
    decreases c.tree.left(lo), 1nat,
{
    if lo < hi && c.tree.has(lo) {
        symbols_at_declared(c, prefix, lo);
        definitions_declared(c, prefix, c.tree.next(lo, hi), hi);
    }
}

/// Each definition of a file, but for that of its module, stands at a node that
/// declares symbols of its kind. Its signature is the text of the node on one
/// line, up to where it stops.
pub proof fn definitions_stand_at_declarations(
    t: Syntax,
    file: Seq<char>,
    found: Seq<Seq<CaptureView>>,
    k: int,
) -> (i: int)
    requires
        0 <= k < facts_of(t, file, found).symbols.len() - 1,
    ensures
        declares(t, i, facts_of(t, file, found).symbols[k].kind),
        is_at(facts_of(t, file, found).symbols[k].occ, file, t, i),
        facts_of(t, file, found).symbols[k].span.start == t.start(i) as usize,
        facts_of(t, file, found).symbols[k].span.end == t.end(i) as usize,
        facts_of(t, file, found).symbols[k].signature == one_line(
            t.text(i),
            stops_at(t, i, facts_of(t, file, found).symbols[k].kind),
        ),
{
    let c = context(t, file);
    let prefix = steps(t, file);
    let f = facts_of(t, file, found);
    definitions_declared(c, prefix, 1, t.after(0));
    let defs = symbols_in(c, prefix, 1, t.after(0));
    assert(f.symbols[k] == defs[k]);
    assert(is_declared_by(c, defs[k]));
    choose|i: int| #![trigger occurrence_at(t, file, i)] defs[k].occ == occurrence_at(t, file, i)
        && defs[k].span == span_at(t, i) && declares(t, i, defs[k].kind)
        && defs[k].signature == one_line(t.text(i), stops_at(t, i, defs[k].kind))
}

// ── No other type is referred to ─────────────────────────────────────────────

/// Whether node `i` names a type, by the name `name`.
pub open spec fn names_type(t: Syntax, i: int, name: Seq<char>) -> bool {
    name == t.text(i)
        && (t.kind(i) == "type_identifier"@ || (exists|p: int| (#[trigger] t.kind(p) == "struct_specifier"@ || t.kind(p) == "union_specifier"@ || t.kind(p) == "enum_specifier"@) && t.child(p, "name"@) == Some(i)))
}

/// Whether a reference is to a type that a node names, and says where it stands.
pub open spec fn is_of_type(t: Syntax, file: Seq<char>, r: ReferenceView) -> bool {
    &&& r.role == RefRole::TypeRef
    &&& r.type_ref_ctx is Some
    &&& exists|i: int| #![trigger occurrence_at(t, file, i)] r.occ == occurrence_at(t, file, i)
        && names_type(t, i, r.name)
}

/// Whether all references are.
pub open spec fn all_of_types(t: Syntax, file: Seq<char>, references: Seq<ReferenceView>) -> bool {
    forall|k: int| 0 <= k < references.len() ==> is_of_type(t, file, #[trigger] references[k])
}

proof fn type_refs_at_typed(t: Syntax, file: Seq<char>, i: int)
    ensures
        all_of_types(t, file, type_refs_at(t, file, i)),
    decreases t.left(i), 0nat,
{
    if t.has(i) {
        type_refs_in_typed(t, file, i + 1, t.after(i));
    }
}

proof fn type_refs_in_typed(t: Syntax, file: Seq<char>, lo: int, hi: int)
    ensures
        all_of_types(t, file, type_refs_in(t, file, lo, hi)),
    decreases t.left(lo), 1nat,
{
    if lo < hi && t.has(lo) {
        type_refs_at_typed(t, file, lo);
        type_refs_in_typed(t, file, t.next(lo, hi), hi);
    }
}

/// Each type reference of a file stands at a node that names a type.
pub proof fn type_references_name_types(t: Syntax, file: Seq<char>, k: int) -> (i: int)
    requires
        0 <= k < type_refs_at(t, file, 0).len(),
    ensures
        type_refs_at(t, file, 0)[k].role == RefRole::TypeRef,
        type_refs_at(t, file, 0)[k].type_ref_ctx is Some,
        is_at(type_refs_at(t, file, 0)[k].occ, file, t, i),
        names_type(t, i, type_refs_at(t, file, 0)[k].name),
{
    type_refs_at_typed(t, file, 0);
    let r = type_refs_at(t, file, 0)[k];
    assert(is_of_type(t, file, r));
    choose|i: int| #![trigger occurrence_at(t, file, i)] r.occ == occurrence_at(t, file, i)
        && names_type(t, i, r.name)
}

// ── All names and places ─────────────────────────────────────────────────────

/// The facts of a file name the file and its language.
pub proof fn facts_name_their_file(t: Syntax, file: Seq<char>, found: Seq<Seq<CaptureView>>)
    ensures
        facts_of(t, file, found).file == file,
        facts_of(t, file, found).lang == Language::C.tag(),
{
}

/// Each reference has the last scope of the file that holds its place.
pub proof fn references_have_innermost_scopes(
    t: Syntax,
    file: Seq<char>,
    found: Seq<Seq<CaptureView>>,
    k: int,
)
    requires
        0 <= k < facts_of(t, file, found).references.len(),
        facts_of(t, file, found).scopes.len() <= usize::MAX,
    ensures
        is_scoped(facts_of(t, file, found).scopes, facts_of(t, file, found).references[k]),
{
    place_is_scoped(facts_of(t, file, found).scopes, facts_of(t, file, found).references[k]);
}

/// Each definition of a file, but for that of its module, is bound in the scope
/// of the file as a whole.
pub proof fn definitions_are_bound(t: Syntax, file: Seq<char>, found: Seq<Seq<CaptureView>>, k: int)
    requires
        0 <= k < facts_of(t, file, found).symbols.len() - 1,
    ensures
        binds_definition(facts_of(t, file, found), facts_of(t, file, found).symbols[k]),
{
    let f = facts_of(t, file, found);
    let locals = bindings_at(t, f.scopes, 0);
    let c = context(t, file);
    let prefix = steps(t, file);
    let defs = symbols_in(c, prefix, 1, t.after(0));
    let imported: Seq<BindingView> = Seq::empty();
    assert(f.bindings =~= locals + definitions_bound(defs) + imported);
    assert(f.symbols[k] == defs[k]);
    definition_is_bound(f, locals, defs, imported, k);
}

/// Each name that a file binds is that of a definition or of an import of the
/// file, or is bound to itself in the innermost scope at its place.
pub proof fn bindings_have_origins(t: Syntax, file: Seq<char>, found: Seq<Seq<CaptureView>>, k: int)
    requires
        0 <= k < facts_of(t, file, found).bindings.len(),
        facts_of(t, file, found).scopes.len() <= usize::MAX,
    ensures
        has_origin(facts_of(t, file, found), facts_of(t, file, found).bindings[k]),
{
    let f = facts_of(t, file, found);
    let locals = bindings_at(t, f.scopes, 0);
    let c = context(t, file);
    let prefix = steps(t, file);
    let defs = symbols_in(c, prefix, 1, t.after(0));
    let imported: Seq<BindingView> = Seq::empty();
    assert(f.bindings =~= locals + definitions_bound(defs) + imported);
    locals_are_nested(t, f.scopes, 0);
    bound_has_origin(f, locals, defs, imported, k);
}

// ── Calls ────────────────────────────────────────────────────────────────────

/// Each match with a callee that is long enough is a call, with the qualifier
/// of the match where it has one.
pub proof fn calls_are_reported(
    t: Syntax,
    file: Seq<char>,
    found: Seq<Seq<CaptureView>>,
    k: int,
    c: CaptureView,
    q: CaptureView,
)
    requires
        0 <= k < found.len(),
        captures(found[k], "callee"@, c),
        long_enough(text_between(t.source, c.start, c.end)),
        captures(found[k], "qualifier"@, q),
    ensures
        calls_name(
            facts_of(t, file, found),
            c,
            text_between(t.source, c.start, c.end),
            Some(text_between(t.source, q.start, q.end)),
            false,
        ),
{
    call_is_found(t.source, file, found, k, c);
    let plain = plain_call(t.source, file, found[k]);
    let r = plain;
    in_either(calls(t.source, file, found), type_refs_at(t, file, 0), r);
    in_either(calls(t.source, file, found) + type_refs_at(t, file, 0), reads_at(t, file, 0), r);
    in_either(
        calls(t.source, file, found) + type_refs_at(t, file, 0) + reads_at(t, file, 0),
        writes_at(t, file, 0),
        r,
    );
    is_reported(facts_of(t, file, found), references_of(t, file, found), r);
}

/// Each match with a callee that is long enough and no qualifier is a call
/// without one.
pub proof fn plain_calls_are_reported(
    t: Syntax,
    file: Seq<char>,
    found: Seq<Seq<CaptureView>>,
    k: int,
    c: CaptureView,
)
    requires
        0 <= k < found.len(),
        captures(found[k], "callee"@, c),
        long_enough(text_between(t.source, c.start, c.end)),
        lacks(found[k], "qualifier"@),
    ensures
        calls_name(
            facts_of(t, file, found),
            c,
            text_between(t.source, c.start, c.end),
            None,
            false,
        ),
{
    call_is_found(t.source, file, found, k, c);
    let plain = plain_call(t.source, file, found[k]);
    let r = plain;
    in_either(calls(t.source, file, found), type_refs_at(t, file, 0), r);
    in_either(calls(t.source, file, found) + type_refs_at(t, file, 0), reads_at(t, file, 0), r);
    in_either(
        calls(t.source, file, found) + type_refs_at(t, file, 0) + reads_at(t, file, 0),
        writes_at(t, file, 0),
        r,
    );
    is_reported(facts_of(t, file, found), references_of(t, file, found), r);
}

} // verus!
