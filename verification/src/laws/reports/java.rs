//! What the facts of Java files tell of their nodes.

use crate::extract::java::{
    all_natives_in, args_in, base_of, bindings_at, bindings_in, bindings_in_document_order,
    bindings_of_nodes, clause_bases, declared_bases, declared_package, entry_points_at,
    facts_of, field_symbols, fields_in, import_of, imports_at, imports_in_document_order,
    imports_of_nodes, in_declared_name, inferred_in, inherits_at, inherits_in_document_order,
    inherits_of_nodes, introduced, is_method, lambda_params, last_name_in, leaves_at, leaves_in,
    listed_in, local_at, local_type, locals_in, mangled, members_in, method_symbols, modified,
    namespaces_of, native_of, natives_in, not_read, own_type_refs, package_name_in,
    package_parts, param_at, params_in, plain_param, read_of, reads_at, reads_in_document_order,
    reads_of_nodes, references_of, reported_type, route_of, routes_in, scopes_with,
    scopes_with_all, spread_names_in, symbols_in, type_kind, type_natives, type_refs_at,
    type_refs_in, type_refs_in_document_order, type_refs_of_nodes, type_symbols, visibility_at,
    word_in, write_of, writes_at, writes_in_document_order, writes_of_nodes, written_type,
};
use crate::extract::{
    Ctx, at_file_level, calls_qualified, definitions_bound, extends, imports_bound,
    local_binding, module_scope, module_view, occurrence_at, receiver_marked, reference_at,
    self_marked, span_at, type_reference_at,
};
use crate::graph::types::{
    BindingKind, BindingView, EntryPointView, RefRole, ReferenceView, Scope, ScopeId, ScopeKind,
    SymbolKind, SymbolView, TypeRefContext, Visibility,
};
use crate::items::{in_order_all, in_order_each};
use crate::lang::Language;
use crate::laws::java::{
    definitions_belong, is_defined, is_read, locals_are_nested, reads_are_sound,
};
use crate::laws::{belongs, identifiers_apart};
use crate::parse::CaptureView;
use crate::symbol::{DescriptorView, namespace_steps, scip_text};
use crate::syntax::{Syntax, field_is_child, group_child_bounds};
use crate::text::{
    byte_count, has_prefix, one_line, own_suffix, segments, simple_name, text_between,
    without_prefix, without_suffix,
};
use super::bound::{
    binds_definition, binds_import, bound_has_origin, definition_is_bound, has_origin,
    imported_is_bound, is_scoped, place_is_scoped,
};
use super::calls::{
    call_is_found, calls_at, calls_name, captures, lacks, mark_is_found, plain_call,
    qualified_call_is_found, receiver_is_found,
};
use super::texts::{are_parts, join, joined_comes_apart, prefix_comes_off};
use super::{
    binds, binds_as, child_stands_in_field, defines_as, defines_in, earlier_ends_before,
    extends_module, file_level_is_outside, imports, in_either, is_at, is_entered, is_module,
    is_reported, local_is_bound, long_enough, opens_scope, opens_scope_stays, outside_code,
    reached_is_behind, refers, refers_to_type, reported, scope_is_within, starts_with,
};
use vstd::prelude::*;

verus! {

broadcast use group_child_bounds;

/// The text of the module of a file.
spec fn own_module(t: Syntax, file: Seq<char>) -> Seq<char> {
    scip_text(
        module_view(Language::Java, namespaces_of(t, file), file, byte_count(t.source) as int).id,
    )
}

/// What the definitions of a file are read from.
spec fn context(t: Syntax, file: Seq<char>) -> Ctx {
    Ctx { tree: t, file, lang: Language::Java }
}

/// The steps that lead to the definitions of a file.
spec fn steps(t: Syntax, file: Seq<char>) -> Seq<DescriptorView> {
    namespace_steps(namespaces_of(t, file))
}

proof fn type_kind_kinds()
    ensures
        "class_declaration"@ != "record_declaration"@,
        "class_declaration"@ != "interface_declaration"@,
        "class_declaration"@ != "annotation_type_declaration"@,
        "class_declaration"@ != "enum_declaration"@,
        "record_declaration"@ != "interface_declaration"@,
        "record_declaration"@ != "annotation_type_declaration"@,
        "record_declaration"@ != "enum_declaration"@,
        "interface_declaration"@ != "annotation_type_declaration"@,
        "interface_declaration"@ != "enum_declaration"@,
        "annotation_type_declaration"@ != "enum_declaration"@,
{
    reveal_strlit("class_declaration");
    reveal_strlit("record_declaration");
    reveal_strlit("interface_declaration");
    reveal_strlit("annotation_type_declaration");
    reveal_strlit("enum_declaration");
    assert("class_declaration"@.len() != "record_declaration"@.len());
    assert("class_declaration"@.len() != "interface_declaration"@.len());
    assert("class_declaration"@.len() != "annotation_type_declaration"@.len());
    assert("class_declaration"@.len() != "enum_declaration"@.len());
    assert("record_declaration"@.len() != "interface_declaration"@.len());
    assert("record_declaration"@.len() != "annotation_type_declaration"@.len());
    assert("record_declaration"@.len() != "enum_declaration"@.len());
    assert("interface_declaration"@.len() != "annotation_type_declaration"@.len());
    assert("interface_declaration"@.len() != "enum_declaration"@.len());
    assert("annotation_type_declaration"@.len() != "enum_declaration"@.len());
}

proof fn members_in_kinds()
    ensures
        "method_declaration"@ != "enum_body_declarations"@,
        "method_declaration"@ != "field_declaration"@,
        "method_declaration"@ != "constant_declaration"@,
        "constructor_declaration"@ != "enum_body_declarations"@,
        "constructor_declaration"@ != "field_declaration"@,
        "constructor_declaration"@ != "constant_declaration"@,
        "compact_constructor_declaration"@ != "enum_body_declarations"@,
        "compact_constructor_declaration"@ != "field_declaration"@,
        "compact_constructor_declaration"@ != "constant_declaration"@,
        "annotation_type_element_declaration"@ != "enum_body_declarations"@,
        "annotation_type_element_declaration"@ != "field_declaration"@,
        "annotation_type_element_declaration"@ != "constant_declaration"@,
        "field_declaration"@ != "enum_body_declarations"@,
        "field_declaration"@ != "constant_declaration"@,
        "constant_declaration"@ != "enum_body_declarations"@,
{
    reveal_strlit("method_declaration");
    reveal_strlit("enum_body_declarations");
    reveal_strlit("field_declaration");
    reveal_strlit("constant_declaration");
    reveal_strlit("constructor_declaration");
    reveal_strlit("compact_constructor_declaration");
    reveal_strlit("annotation_type_element_declaration");
    assert("method_declaration"@.len() != "enum_body_declarations"@.len());
    assert("method_declaration"@.len() != "field_declaration"@.len());
    assert("method_declaration"@.len() != "constant_declaration"@.len());
    assert("constructor_declaration"@.len() != "enum_body_declarations"@.len());
    assert("constructor_declaration"@.len() != "field_declaration"@.len());
    assert("constructor_declaration"@.len() != "constant_declaration"@.len());
    assert("compact_constructor_declaration"@.len() != "enum_body_declarations"@.len());
    assert("compact_constructor_declaration"@.len() != "field_declaration"@.len());
    assert("compact_constructor_declaration"@.len() != "constant_declaration"@.len());
    assert("annotation_type_element_declaration"@.len() != "enum_body_declarations"@.len());
    assert("annotation_type_element_declaration"@.len() != "field_declaration"@.len());
    assert("annotation_type_element_declaration"@.len() != "constant_declaration"@.len());
    assert("field_declaration"@.len() != "enum_body_declarations"@.len());
    assert("field_declaration"@.len() != "constant_declaration"@.len());
    assert("constant_declaration"@.len() != "enum_body_declarations"@.len());
}

proof fn is_method_kinds()
    ensures
        "field_declaration"@ != "method_declaration"@,
        "field_declaration"@ != "constructor_declaration"@,
        "field_declaration"@ != "compact_constructor_declaration"@,
        "field_declaration"@ != "annotation_type_element_declaration"@,
        "constant_declaration"@ != "method_declaration"@,
        "constant_declaration"@ != "constructor_declaration"@,
        "constant_declaration"@ != "compact_constructor_declaration"@,
        "constant_declaration"@ != "annotation_type_element_declaration"@,
{
    reveal_strlit("field_declaration");
    reveal_strlit("method_declaration");
    reveal_strlit("constructor_declaration");
    reveal_strlit("compact_constructor_declaration");
    reveal_strlit("annotation_type_element_declaration");
    reveal_strlit("constant_declaration");
    assert("field_declaration"@.len() != "method_declaration"@.len());
    assert("field_declaration"@.len() != "constructor_declaration"@.len());
    assert("field_declaration"@.len() != "compact_constructor_declaration"@.len());
    assert("field_declaration"@.len() != "annotation_type_element_declaration"@.len());
    assert("constant_declaration"@.len() != "method_declaration"@.len());
    assert("constant_declaration"@.len() != "constructor_declaration"@.len());
    assert("constant_declaration"@.len() != "compact_constructor_declaration"@.len());
    assert("constant_declaration"@.len() != "annotation_type_element_declaration"@.len());
}

proof fn declared_bases_kinds()
    ensures
        "class_declaration"@ != "interface_declaration"@,
{
    reveal_strlit("class_declaration");
    reveal_strlit("interface_declaration");
    assert("class_declaration"@.len() != "interface_declaration"@.len());
}

proof fn natives_in_kinds()
    ensures
        "method_declaration"@ != "enum_body_declarations"@,
{
    reveal_strlit("method_declaration");
    reveal_strlit("enum_body_declarations");
    assert("method_declaration"@.len() != "enum_body_declarations"@.len());
}

proof fn leaves_at_kinds()
    ensures
        "array_type"@ != "type_identifier"@,
        "array_type"@ != "generic_type"@,
        "array_type"@ != "scoped_type_identifier"@,
        "generic_type"@ != "type_identifier"@,
        "generic_type"@ != "scoped_type_identifier"@,
        "scoped_type_identifier"@ != "type_identifier"@,
{
    reveal_strlit("array_type");
    reveal_strlit("type_identifier");
    reveal_strlit("generic_type");
    reveal_strlit("scoped_type_identifier");
    assert("array_type"@.len() != "type_identifier"@.len());
    assert("array_type"@.len() != "generic_type"@.len());
    assert("array_type"@.len() != "scoped_type_identifier"@.len());
    assert("generic_type"@.len() != "type_identifier"@.len());
    assert("generic_type"@.len() != "scoped_type_identifier"@.len());
    assert("scoped_type_identifier"@.len() != "type_identifier"@.len());
}

proof fn reported_type_kinds()
    ensures
        "method_declaration"@ != "spread_parameter"@,
        "method_declaration"@ != "formal_parameter"@,
        "method_declaration"@ != "field_declaration"@,
        "formal_parameter"@ != "spread_parameter"@,
        "formal_parameter"@ != "field_declaration"@,
        "spread_parameter"@ != "field_declaration"@,
{
    reveal_strlit("method_declaration");
    reveal_strlit("spread_parameter");
    reveal_strlit("formal_parameter");
    reveal_strlit("field_declaration");
    assert("method_declaration"@.len() != "spread_parameter"@.len());
    assert("method_declaration"@.len() != "formal_parameter"@.len());
    assert("method_declaration"@.len() != "field_declaration"@.len());
    assert("formal_parameter"@[0] != "spread_parameter"@[0]);
    assert("formal_parameter"@.len() != "field_declaration"@.len());
    assert("spread_parameter"@.len() != "field_declaration"@.len());
}

proof fn introduced_kinds()
    ensures
        "method_declaration"@ != "constructor_declaration"@,
        "method_declaration"@ != "compact_constructor_declaration"@,
        "method_declaration"@ != "lambda_expression"@,
        "method_declaration"@ != "local_variable_declaration"@,
        "method_declaration"@ != "enhanced_for_statement"@,
        "method_declaration"@ != "catch_formal_parameter"@,
        "constructor_declaration"@ != "compact_constructor_declaration"@,
        "constructor_declaration"@ != "lambda_expression"@,
        "constructor_declaration"@ != "local_variable_declaration"@,
        "constructor_declaration"@ != "enhanced_for_statement"@,
        "constructor_declaration"@ != "catch_formal_parameter"@,
        "compact_constructor_declaration"@ != "lambda_expression"@,
        "compact_constructor_declaration"@ != "local_variable_declaration"@,
        "compact_constructor_declaration"@ != "enhanced_for_statement"@,
        "compact_constructor_declaration"@ != "catch_formal_parameter"@,
        "lambda_expression"@ != "local_variable_declaration"@,
        "lambda_expression"@ != "enhanced_for_statement"@,
        "lambda_expression"@ != "catch_formal_parameter"@,
        "formal_parameters"@ != "method_declaration"@,
        "formal_parameters"@ != "constructor_declaration"@,
        "formal_parameters"@ != "compact_constructor_declaration"@,
        "formal_parameters"@ != "lambda_expression"@,
        "formal_parameters"@ != "local_variable_declaration"@,
        "formal_parameters"@ != "enhanced_for_statement"@,
        "formal_parameters"@ != "catch_formal_parameter"@,
        "spread_parameter"@ != "method_declaration"@,
        "spread_parameter"@ != "constructor_declaration"@,
        "spread_parameter"@ != "compact_constructor_declaration"@,
        "spread_parameter"@ != "lambda_expression"@,
        "spread_parameter"@ != "local_variable_declaration"@,
        "spread_parameter"@ != "enhanced_for_statement"@,
        "spread_parameter"@ != "catch_formal_parameter"@,
        "inferred_parameters"@ != "method_declaration"@,
        "inferred_parameters"@ != "constructor_declaration"@,
        "inferred_parameters"@ != "compact_constructor_declaration"@,
        "inferred_parameters"@ != "lambda_expression"@,
        "inferred_parameters"@ != "local_variable_declaration"@,
        "inferred_parameters"@ != "enhanced_for_statement"@,
        "inferred_parameters"@ != "catch_formal_parameter"@,
        "identifier"@ != "method_declaration"@,
        "identifier"@ != "constructor_declaration"@,
        "identifier"@ != "compact_constructor_declaration"@,
        "identifier"@ != "lambda_expression"@,
        "identifier"@ != "local_variable_declaration"@,
        "identifier"@ != "enhanced_for_statement"@,
        "identifier"@ != "catch_formal_parameter"@,
        "local_variable_declaration"@ != "enhanced_for_statement"@,
        "local_variable_declaration"@ != "catch_formal_parameter"@,
        "scoped_type_identifier"@ != "method_declaration"@,
        "scoped_type_identifier"@ != "constructor_declaration"@,
        "scoped_type_identifier"@ != "compact_constructor_declaration"@,
        "scoped_type_identifier"@ != "lambda_expression"@,
        "scoped_type_identifier"@ != "local_variable_declaration"@,
        "scoped_type_identifier"@ != "enhanced_for_statement"@,
        "scoped_type_identifier"@ != "catch_formal_parameter"@,
        "generic_type"@ != "method_declaration"@,
        "generic_type"@ != "constructor_declaration"@,
        "generic_type"@ != "compact_constructor_declaration"@,
        "generic_type"@ != "lambda_expression"@,
        "generic_type"@ != "local_variable_declaration"@,
        "generic_type"@ != "enhanced_for_statement"@,
        "generic_type"@ != "catch_formal_parameter"@,
        "enhanced_for_statement"@ != "catch_formal_parameter"@,
{
    reveal_strlit("method_declaration");
    reveal_strlit("constructor_declaration");
    reveal_strlit("compact_constructor_declaration");
    reveal_strlit("lambda_expression");
    reveal_strlit("local_variable_declaration");
    reveal_strlit("enhanced_for_statement");
    reveal_strlit("catch_formal_parameter");
    reveal_strlit("formal_parameters");
    reveal_strlit("spread_parameter");
    reveal_strlit("inferred_parameters");
    reveal_strlit("identifier");
    reveal_strlit("scoped_type_identifier");
    reveal_strlit("generic_type");
    assert("method_declaration"@.len() != "constructor_declaration"@.len());
    assert("method_declaration"@.len() != "compact_constructor_declaration"@.len());
    assert("method_declaration"@.len() != "lambda_expression"@.len());
    assert("method_declaration"@.len() != "local_variable_declaration"@.len());
    assert("method_declaration"@.len() != "enhanced_for_statement"@.len());
    assert("method_declaration"@.len() != "catch_formal_parameter"@.len());
    assert("constructor_declaration"@.len() != "compact_constructor_declaration"@.len());
    assert("constructor_declaration"@.len() != "lambda_expression"@.len());
    assert("constructor_declaration"@.len() != "local_variable_declaration"@.len());
    assert("constructor_declaration"@.len() != "enhanced_for_statement"@.len());
    assert("constructor_declaration"@.len() != "catch_formal_parameter"@.len());
    assert("compact_constructor_declaration"@.len() != "lambda_expression"@.len());
    assert("compact_constructor_declaration"@.len() != "local_variable_declaration"@.len());
    assert("compact_constructor_declaration"@.len() != "enhanced_for_statement"@.len());
    assert("compact_constructor_declaration"@.len() != "catch_formal_parameter"@.len());
    assert("lambda_expression"@.len() != "local_variable_declaration"@.len());
    assert("lambda_expression"@.len() != "enhanced_for_statement"@.len());
    assert("lambda_expression"@.len() != "catch_formal_parameter"@.len());
    assert("formal_parameters"@.len() != "method_declaration"@.len());
    assert("formal_parameters"@.len() != "constructor_declaration"@.len());
    assert("formal_parameters"@.len() != "compact_constructor_declaration"@.len());
    assert("formal_parameters"@[0] != "lambda_expression"@[0]);
    assert("formal_parameters"@.len() != "local_variable_declaration"@.len());
    assert("formal_parameters"@.len() != "enhanced_for_statement"@.len());
    assert("formal_parameters"@.len() != "catch_formal_parameter"@.len());
    assert("spread_parameter"@.len() != "method_declaration"@.len());
    assert("spread_parameter"@.len() != "constructor_declaration"@.len());
    assert("spread_parameter"@.len() != "compact_constructor_declaration"@.len());
    assert("spread_parameter"@.len() != "lambda_expression"@.len());
    assert("spread_parameter"@.len() != "local_variable_declaration"@.len());
    assert("spread_parameter"@.len() != "enhanced_for_statement"@.len());
    assert("spread_parameter"@.len() != "catch_formal_parameter"@.len());
    assert("inferred_parameters"@.len() != "method_declaration"@.len());
    assert("inferred_parameters"@.len() != "constructor_declaration"@.len());
    assert("inferred_parameters"@.len() != "compact_constructor_declaration"@.len());
    assert("inferred_parameters"@.len() != "lambda_expression"@.len());
    assert("inferred_parameters"@.len() != "local_variable_declaration"@.len());
    assert("inferred_parameters"@.len() != "enhanced_for_statement"@.len());
    assert("inferred_parameters"@.len() != "catch_formal_parameter"@.len());
    assert("identifier"@.len() != "method_declaration"@.len());
    assert("identifier"@.len() != "constructor_declaration"@.len());
    assert("identifier"@.len() != "compact_constructor_declaration"@.len());
    assert("identifier"@.len() != "lambda_expression"@.len());
    assert("identifier"@.len() != "local_variable_declaration"@.len());
    assert("identifier"@.len() != "enhanced_for_statement"@.len());
    assert("identifier"@.len() != "catch_formal_parameter"@.len());
    assert("local_variable_declaration"@.len() != "enhanced_for_statement"@.len());
    assert("local_variable_declaration"@.len() != "catch_formal_parameter"@.len());
    assert("scoped_type_identifier"@.len() != "method_declaration"@.len());
    assert("scoped_type_identifier"@.len() != "constructor_declaration"@.len());
    assert("scoped_type_identifier"@.len() != "compact_constructor_declaration"@.len());
    assert("scoped_type_identifier"@.len() != "lambda_expression"@.len());
    assert("scoped_type_identifier"@.len() != "local_variable_declaration"@.len());
    assert("scoped_type_identifier"@[0] != "enhanced_for_statement"@[0]);
    assert("scoped_type_identifier"@[0] != "catch_formal_parameter"@[0]);
    assert("generic_type"@.len() != "method_declaration"@.len());
    assert("generic_type"@.len() != "constructor_declaration"@.len());
    assert("generic_type"@.len() != "compact_constructor_declaration"@.len());
    assert("generic_type"@.len() != "lambda_expression"@.len());
    assert("generic_type"@.len() != "local_variable_declaration"@.len());
    assert("generic_type"@.len() != "enhanced_for_statement"@.len());
    assert("generic_type"@.len() != "catch_formal_parameter"@.len());
    assert("enhanced_for_statement"@[0] != "catch_formal_parameter"@[0]);
}

proof fn lambda_params_kinds()
    ensures
        "method_declaration"@ != "formal_parameters"@,
        "method_declaration"@ != "inferred_parameters"@,
        "method_declaration"@ != "identifier"@,
        "constructor_declaration"@ != "formal_parameters"@,
        "constructor_declaration"@ != "inferred_parameters"@,
        "constructor_declaration"@ != "identifier"@,
        "compact_constructor_declaration"@ != "formal_parameters"@,
        "compact_constructor_declaration"@ != "inferred_parameters"@,
        "compact_constructor_declaration"@ != "identifier"@,
        "lambda_expression"@ != "formal_parameters"@,
        "lambda_expression"@ != "inferred_parameters"@,
        "lambda_expression"@ != "identifier"@,
        "formal_parameters"@ != "inferred_parameters"@,
        "formal_parameters"@ != "identifier"@,
        "spread_parameter"@ != "formal_parameters"@,
        "spread_parameter"@ != "inferred_parameters"@,
        "spread_parameter"@ != "identifier"@,
        "inferred_parameters"@ != "identifier"@,
{
    reveal_strlit("method_declaration");
    reveal_strlit("formal_parameters");
    reveal_strlit("inferred_parameters");
    reveal_strlit("identifier");
    reveal_strlit("constructor_declaration");
    reveal_strlit("compact_constructor_declaration");
    reveal_strlit("lambda_expression");
    reveal_strlit("spread_parameter");
    assert("method_declaration"@.len() != "formal_parameters"@.len());
    assert("method_declaration"@.len() != "inferred_parameters"@.len());
    assert("method_declaration"@.len() != "identifier"@.len());
    assert("constructor_declaration"@.len() != "formal_parameters"@.len());
    assert("constructor_declaration"@.len() != "inferred_parameters"@.len());
    assert("constructor_declaration"@.len() != "identifier"@.len());
    assert("compact_constructor_declaration"@.len() != "formal_parameters"@.len());
    assert("compact_constructor_declaration"@.len() != "inferred_parameters"@.len());
    assert("compact_constructor_declaration"@.len() != "identifier"@.len());
    assert("lambda_expression"@[0] != "formal_parameters"@[0]);
    assert("lambda_expression"@.len() != "inferred_parameters"@.len());
    assert("lambda_expression"@.len() != "identifier"@.len());
    assert("formal_parameters"@.len() != "inferred_parameters"@.len());
    assert("formal_parameters"@.len() != "identifier"@.len());
    assert("spread_parameter"@.len() != "formal_parameters"@.len());
    assert("spread_parameter"@.len() != "inferred_parameters"@.len());
    assert("spread_parameter"@.len() != "identifier"@.len());
    assert("inferred_parameters"@.len() != "identifier"@.len());
}

proof fn param_at_kinds()
    ensures
        "method_declaration"@ != "formal_parameter"@,
        "method_declaration"@ != "spread_parameter"@,
        "constructor_declaration"@ != "formal_parameter"@,
        "constructor_declaration"@ != "spread_parameter"@,
        "compact_constructor_declaration"@ != "formal_parameter"@,
        "compact_constructor_declaration"@ != "spread_parameter"@,
        "lambda_expression"@ != "formal_parameter"@,
        "lambda_expression"@ != "spread_parameter"@,
        "formal_parameters"@ != "formal_parameter"@,
        "formal_parameters"@ != "spread_parameter"@,
        "spread_parameter"@ != "formal_parameter"@,
{
    reveal_strlit("method_declaration");
    reveal_strlit("formal_parameter");
    reveal_strlit("spread_parameter");
    reveal_strlit("constructor_declaration");
    reveal_strlit("compact_constructor_declaration");
    reveal_strlit("lambda_expression");
    reveal_strlit("formal_parameters");
    assert("method_declaration"@.len() != "formal_parameter"@.len());
    assert("method_declaration"@.len() != "spread_parameter"@.len());
    assert("constructor_declaration"@.len() != "formal_parameter"@.len());
    assert("constructor_declaration"@.len() != "spread_parameter"@.len());
    assert("compact_constructor_declaration"@.len() != "formal_parameter"@.len());
    assert("compact_constructor_declaration"@.len() != "spread_parameter"@.len());
    assert("lambda_expression"@.len() != "formal_parameter"@.len());
    assert("lambda_expression"@.len() != "spread_parameter"@.len());
    assert("formal_parameters"@.len() != "formal_parameter"@.len());
    assert("formal_parameters"@.len() != "spread_parameter"@.len());
    assert("spread_parameter"@[0] != "formal_parameter"@[0]);
}

proof fn local_type_kinds()
    ensures
        "local_variable_declaration"@ != "type_identifier"@,
        "local_variable_declaration"@ != "var"@,
        "local_variable_declaration"@ != "scoped_type_identifier"@,
        "local_variable_declaration"@ != "generic_type"@,
        "scoped_type_identifier"@ != "type_identifier"@,
        "scoped_type_identifier"@ != "var"@,
        "scoped_type_identifier"@ != "generic_type"@,
        "generic_type"@ != "type_identifier"@,
        "generic_type"@ != "var"@,
{
    reveal_strlit("local_variable_declaration");
    reveal_strlit("type_identifier");
    reveal_strlit("var");
    reveal_strlit("scoped_type_identifier");
    reveal_strlit("generic_type");
    assert("local_variable_declaration"@.len() != "type_identifier"@.len());
    assert("local_variable_declaration"@.len() != "var"@.len());
    assert("local_variable_declaration"@.len() != "scoped_type_identifier"@.len());
    assert("local_variable_declaration"@.len() != "generic_type"@.len());
    assert("scoped_type_identifier"@.len() != "type_identifier"@.len());
    assert("scoped_type_identifier"@.len() != "var"@.len());
    assert("scoped_type_identifier"@.len() != "generic_type"@.len());
    assert("generic_type"@.len() != "type_identifier"@.len());
    assert("generic_type"@.len() != "var"@.len());
}

proof fn scopes_with_kinds()
    ensures
        "class_declaration"@ != "interface_declaration"@,
        "class_declaration"@ != "enum_declaration"@,
        "class_declaration"@ != "record_declaration"@,
        "class_declaration"@ != "annotation_type_declaration"@,
        "class_declaration"@ != "method_declaration"@,
        "class_declaration"@ != "constructor_declaration"@,
        "class_declaration"@ != "compact_constructor_declaration"@,
        "class_declaration"@ != "lambda_expression"@,
        "class_declaration"@ != "block"@,
        "interface_declaration"@ != "enum_declaration"@,
        "interface_declaration"@ != "record_declaration"@,
        "interface_declaration"@ != "annotation_type_declaration"@,
        "interface_declaration"@ != "method_declaration"@,
        "interface_declaration"@ != "constructor_declaration"@,
        "interface_declaration"@ != "compact_constructor_declaration"@,
        "interface_declaration"@ != "lambda_expression"@,
        "interface_declaration"@ != "block"@,
        "enum_declaration"@ != "record_declaration"@,
        "enum_declaration"@ != "annotation_type_declaration"@,
        "enum_declaration"@ != "method_declaration"@,
        "enum_declaration"@ != "constructor_declaration"@,
        "enum_declaration"@ != "compact_constructor_declaration"@,
        "enum_declaration"@ != "lambda_expression"@,
        "enum_declaration"@ != "block"@,
        "record_declaration"@ != "annotation_type_declaration"@,
        "record_declaration"@ != "method_declaration"@,
        "record_declaration"@ != "constructor_declaration"@,
        "record_declaration"@ != "compact_constructor_declaration"@,
        "record_declaration"@ != "lambda_expression"@,
        "record_declaration"@ != "block"@,
        "annotation_type_declaration"@ != "method_declaration"@,
        "annotation_type_declaration"@ != "constructor_declaration"@,
        "annotation_type_declaration"@ != "compact_constructor_declaration"@,
        "annotation_type_declaration"@ != "lambda_expression"@,
        "annotation_type_declaration"@ != "block"@,
        "method_declaration"@ != "constructor_declaration"@,
        "method_declaration"@ != "compact_constructor_declaration"@,
        "method_declaration"@ != "lambda_expression"@,
        "method_declaration"@ != "block"@,
        "constructor_declaration"@ != "compact_constructor_declaration"@,
        "constructor_declaration"@ != "lambda_expression"@,
        "constructor_declaration"@ != "block"@,
        "compact_constructor_declaration"@ != "lambda_expression"@,
        "compact_constructor_declaration"@ != "block"@,
        "lambda_expression"@ != "block"@,
{
    reveal_strlit("class_declaration");
    reveal_strlit("interface_declaration");
    reveal_strlit("enum_declaration");
    reveal_strlit("record_declaration");
    reveal_strlit("annotation_type_declaration");
    reveal_strlit("method_declaration");
    reveal_strlit("constructor_declaration");
    reveal_strlit("compact_constructor_declaration");
    reveal_strlit("lambda_expression");
    reveal_strlit("block");
    assert("class_declaration"@.len() != "interface_declaration"@.len());
    assert("class_declaration"@.len() != "enum_declaration"@.len());
    assert("class_declaration"@.len() != "record_declaration"@.len());
    assert("class_declaration"@.len() != "annotation_type_declaration"@.len());
    assert("class_declaration"@.len() != "method_declaration"@.len());
    assert("class_declaration"@.len() != "constructor_declaration"@.len());
    assert("class_declaration"@.len() != "compact_constructor_declaration"@.len());
    assert("class_declaration"@[0] != "lambda_expression"@[0]);
    assert("class_declaration"@.len() != "block"@.len());
    assert("interface_declaration"@.len() != "enum_declaration"@.len());
    assert("interface_declaration"@.len() != "record_declaration"@.len());
    assert("interface_declaration"@.len() != "annotation_type_declaration"@.len());
    assert("interface_declaration"@.len() != "method_declaration"@.len());
    assert("interface_declaration"@.len() != "constructor_declaration"@.len());
    assert("interface_declaration"@.len() != "compact_constructor_declaration"@.len());
    assert("interface_declaration"@.len() != "lambda_expression"@.len());
    assert("interface_declaration"@.len() != "block"@.len());
    assert("enum_declaration"@.len() != "record_declaration"@.len());
    assert("enum_declaration"@.len() != "annotation_type_declaration"@.len());
    assert("enum_declaration"@.len() != "method_declaration"@.len());
    assert("enum_declaration"@.len() != "constructor_declaration"@.len());
    assert("enum_declaration"@.len() != "compact_constructor_declaration"@.len());
    assert("enum_declaration"@.len() != "lambda_expression"@.len());
    assert("enum_declaration"@.len() != "block"@.len());
    assert("record_declaration"@.len() != "annotation_type_declaration"@.len());
    assert("record_declaration"@[0] != "method_declaration"@[0]);
    assert("record_declaration"@.len() != "constructor_declaration"@.len());
    assert("record_declaration"@.len() != "compact_constructor_declaration"@.len());
    assert("record_declaration"@.len() != "lambda_expression"@.len());
    assert("record_declaration"@.len() != "block"@.len());
    assert("annotation_type_declaration"@.len() != "method_declaration"@.len());
    assert("annotation_type_declaration"@.len() != "constructor_declaration"@.len());
    assert("annotation_type_declaration"@.len() != "compact_constructor_declaration"@.len());
    assert("annotation_type_declaration"@.len() != "lambda_expression"@.len());
    assert("annotation_type_declaration"@.len() != "block"@.len());
    assert("method_declaration"@.len() != "constructor_declaration"@.len());
    assert("method_declaration"@.len() != "compact_constructor_declaration"@.len());
    assert("method_declaration"@.len() != "lambda_expression"@.len());
    assert("method_declaration"@.len() != "block"@.len());
    assert("constructor_declaration"@.len() != "compact_constructor_declaration"@.len());
    assert("constructor_declaration"@.len() != "lambda_expression"@.len());
    assert("constructor_declaration"@.len() != "block"@.len());
    assert("compact_constructor_declaration"@.len() != "lambda_expression"@.len());
    assert("compact_constructor_declaration"@.len() != "block"@.len());
    assert("lambda_expression"@.len() != "block"@.len());
}

proof fn inherits_reported(
    t: Syntax,
    file: Seq<char>,
    found: Seq<Seq<CaptureView>>,
    on_self: Seq<Seq<CaptureView>>,
    on_receiver: Seq<Seq<CaptureView>>,
    i: int,
    r: ReferenceView,
)
    requires
        t.nested(),
        0 <= i < t.after(0),
        declared_bases(t, file, i).contains(r),
    ensures
        reported(facts_of(t, file, found, on_self, on_receiver), r),
{
    inherits_in_document_order(t, file, 0);
    let k = choose|k: int| 0 <= k < declared_bases(t, file, i).len()
        && declared_bases(t, file, i)[k] == r;
    in_order_each(inherits_of_nodes(t, file), 0, t.after(0), i, k);
    assert(inherits_at(t, file, 0).contains(r));
    in_either(
        calls_qualified(t.source, file, found, on_self, on_receiver),
        inherits_at(t, file, 0),
        r,
    );
    in_either(
        calls_qualified(t.source, file, found, on_self, on_receiver) + inherits_at(t, file, 0),
        imports_at(t, file, own_module(t, file), 0),
        r,
    );
    in_either(
        calls_qualified(t.source, file, found, on_self, on_receiver) + inherits_at(t, file, 0)
            + imports_at(t, file, own_module(t, file), 0),
        all_natives_in(t, file, package_parts(t), 1, t.after(0)),
        r,
    );
    in_either(
        calls_qualified(t.source, file, found, on_self, on_receiver) + inherits_at(t, file, 0)
            + imports_at(t, file, own_module(t, file), 0)
            + all_natives_in(t, file, package_parts(t), 1, t.after(0)),
        type_refs_at(t, file, 0),
        r,
    );
    in_either(
        calls_qualified(t.source, file, found, on_self, on_receiver) + inherits_at(t, file, 0)
            + imports_at(t, file, own_module(t, file), 0)
            + all_natives_in(t, file, package_parts(t), 1, t.after(0)) + type_refs_at(t, file, 0),
        reads_at(t, file, 0),
        r,
    );
    in_either(
        calls_qualified(t.source, file, found, on_self, on_receiver) + inherits_at(t, file, 0)
            + imports_at(t, file, own_module(t, file), 0)
            + all_natives_in(t, file, package_parts(t), 1, t.after(0)) + type_refs_at(t, file, 0)
            + reads_at(t, file, 0),
        writes_at(t, file, 0),
        r,
    );
    is_reported(
        facts_of(t, file, found, on_self, on_receiver),
        references_of(t, file, own_module(t, file), found, on_self, on_receiver),
        r,
    );
}

proof fn imports_reported(
    t: Syntax,
    file: Seq<char>,
    found: Seq<Seq<CaptureView>>,
    on_self: Seq<Seq<CaptureView>>,
    on_receiver: Seq<Seq<CaptureView>>,
    i: int,
    r: ReferenceView,
)
    requires
        t.nested(),
        0 <= i < t.after(0),
        forall|j: int, k: int| t.has(j) && t.kind(j) == "import_declaration"@
            && j < k < #[trigger] t.after(j)
            ==> #[trigger] t.kind(k) != "import_declaration"@,
        import_of(t, file, own_module(t, file), i).contains(r),
    ensures
        reported(facts_of(t, file, found, on_self, on_receiver), r),
{
    imports_in_document_order(t, file, own_module(t, file), 0);
    let k = choose|k: int| 0 <= k < import_of(t, file, own_module(t, file), i).len()
        && import_of(t, file, own_module(t, file), i)[k] == r;
    in_order_each(imports_of_nodes(t, file, own_module(t, file)), 0, t.after(0), i, k);
    assert(imports_at(t, file, own_module(t, file), 0).contains(r));
    in_either(
        calls_qualified(t.source, file, found, on_self, on_receiver) + inherits_at(t, file, 0),
        imports_at(t, file, own_module(t, file), 0),
        r,
    );
    in_either(
        calls_qualified(t.source, file, found, on_self, on_receiver) + inherits_at(t, file, 0)
            + imports_at(t, file, own_module(t, file), 0),
        all_natives_in(t, file, package_parts(t), 1, t.after(0)),
        r,
    );
    in_either(
        calls_qualified(t.source, file, found, on_self, on_receiver) + inherits_at(t, file, 0)
            + imports_at(t, file, own_module(t, file), 0)
            + all_natives_in(t, file, package_parts(t), 1, t.after(0)),
        type_refs_at(t, file, 0),
        r,
    );
    in_either(
        calls_qualified(t.source, file, found, on_self, on_receiver) + inherits_at(t, file, 0)
            + imports_at(t, file, own_module(t, file), 0)
            + all_natives_in(t, file, package_parts(t), 1, t.after(0)) + type_refs_at(t, file, 0),
        reads_at(t, file, 0),
        r,
    );
    in_either(
        calls_qualified(t.source, file, found, on_self, on_receiver) + inherits_at(t, file, 0)
            + imports_at(t, file, own_module(t, file), 0)
            + all_natives_in(t, file, package_parts(t), 1, t.after(0)) + type_refs_at(t, file, 0)
            + reads_at(t, file, 0),
        writes_at(t, file, 0),
        r,
    );
    is_reported(
        facts_of(t, file, found, on_self, on_receiver),
        references_of(t, file, own_module(t, file), found, on_self, on_receiver),
        r,
    );
}

proof fn type_refs_reported(
    t: Syntax,
    file: Seq<char>,
    found: Seq<Seq<CaptureView>>,
    on_self: Seq<Seq<CaptureView>>,
    on_receiver: Seq<Seq<CaptureView>>,
    i: int,
    r: ReferenceView,
)
    requires
        t.nested(),
        0 <= i < t.after(0),
        own_type_refs(t, file, i).contains(r),
    ensures
        reported(facts_of(t, file, found, on_self, on_receiver), r),
{
    type_refs_in_document_order(t, file, 0);
    let k = choose|k: int| 0 <= k < own_type_refs(t, file, i).len()
        && own_type_refs(t, file, i)[k] == r;
    in_order_each(type_refs_of_nodes(t, file), 0, t.after(0), i, k);
    assert(type_refs_at(t, file, 0).contains(r));
    in_either(
        calls_qualified(t.source, file, found, on_self, on_receiver) + inherits_at(t, file, 0)
            + imports_at(t, file, own_module(t, file), 0)
            + all_natives_in(t, file, package_parts(t), 1, t.after(0)),
        type_refs_at(t, file, 0),
        r,
    );
    in_either(
        calls_qualified(t.source, file, found, on_self, on_receiver) + inherits_at(t, file, 0)
            + imports_at(t, file, own_module(t, file), 0)
            + all_natives_in(t, file, package_parts(t), 1, t.after(0)) + type_refs_at(t, file, 0),
        reads_at(t, file, 0),
        r,
    );
    in_either(
        calls_qualified(t.source, file, found, on_self, on_receiver) + inherits_at(t, file, 0)
            + imports_at(t, file, own_module(t, file), 0)
            + all_natives_in(t, file, package_parts(t), 1, t.after(0)) + type_refs_at(t, file, 0)
            + reads_at(t, file, 0),
        writes_at(t, file, 0),
        r,
    );
    is_reported(
        facts_of(t, file, found, on_self, on_receiver),
        references_of(t, file, own_module(t, file), found, on_self, on_receiver),
        r,
    );
}

proof fn reads_reported(
    t: Syntax,
    file: Seq<char>,
    found: Seq<Seq<CaptureView>>,
    on_self: Seq<Seq<CaptureView>>,
    on_receiver: Seq<Seq<CaptureView>>,
    i: int,
    r: ReferenceView,
)
    requires
        t.nested(),
        0 <= i < t.after(0),
        forall|j: int, k: int| t.has(j) && t.kind(j) == "identifier"@
            && j < k < #[trigger] t.after(j)
            ==> #[trigger] t.kind(k) != "identifier"@,
        read_of(t, file, i).contains(r),
    ensures
        reported(facts_of(t, file, found, on_self, on_receiver), r),
{
    reads_in_document_order(t, file, 0);
    let k = choose|k: int| 0 <= k < read_of(t, file, i).len() && read_of(t, file, i)[k] == r;
    in_order_each(reads_of_nodes(t, file), 0, t.after(0), i, k);
    assert(reads_at(t, file, 0).contains(r));
    in_either(
        calls_qualified(t.source, file, found, on_self, on_receiver) + inherits_at(t, file, 0)
            + imports_at(t, file, own_module(t, file), 0)
            + all_natives_in(t, file, package_parts(t), 1, t.after(0)) + type_refs_at(t, file, 0),
        reads_at(t, file, 0),
        r,
    );
    in_either(
        calls_qualified(t.source, file, found, on_self, on_receiver) + inherits_at(t, file, 0)
            + imports_at(t, file, own_module(t, file), 0)
            + all_natives_in(t, file, package_parts(t), 1, t.after(0)) + type_refs_at(t, file, 0)
            + reads_at(t, file, 0),
        writes_at(t, file, 0),
        r,
    );
    is_reported(
        facts_of(t, file, found, on_self, on_receiver),
        references_of(t, file, own_module(t, file), found, on_self, on_receiver),
        r,
    );
}

proof fn writes_reported(
    t: Syntax,
    file: Seq<char>,
    found: Seq<Seq<CaptureView>>,
    on_self: Seq<Seq<CaptureView>>,
    on_receiver: Seq<Seq<CaptureView>>,
    i: int,
    r: ReferenceView,
)
    requires
        t.nested(),
        0 <= i < t.after(0),
        write_of(t, file, i).contains(r),
    ensures
        reported(facts_of(t, file, found, on_self, on_receiver), r),
{
    writes_in_document_order(t, file, 0);
    let k = choose|k: int| 0 <= k < write_of(t, file, i).len() && write_of(t, file, i)[k] == r;
    in_order_each(writes_of_nodes(t, file), 0, t.after(0), i, k);
    assert(writes_at(t, file, 0).contains(r));
    in_either(
        calls_qualified(t.source, file, found, on_self, on_receiver) + inherits_at(t, file, 0)
            + imports_at(t, file, own_module(t, file), 0)
            + all_natives_in(t, file, package_parts(t), 1, t.after(0)) + type_refs_at(t, file, 0)
            + reads_at(t, file, 0),
        writes_at(t, file, 0),
        r,
    );
    is_reported(
        facts_of(t, file, found, on_self, on_receiver),
        references_of(t, file, own_module(t, file), found, on_self, on_receiver),
        r,
    );
}

proof fn bindings_reported(
    t: Syntax,
    file: Seq<char>,
    found: Seq<Seq<CaptureView>>,
    on_self: Seq<Seq<CaptureView>>,
    on_receiver: Seq<Seq<CaptureView>>,
    i: int,
    b: BindingView,
)
    requires
        t.nested(),
        0 <= i < t.after(0),
        introduced(t, facts_of(t, file, found, on_self, on_receiver).scopes, i).contains(b),
    ensures
        facts_of(t, file, found, on_self, on_receiver).bindings.contains(b),
{
    let scopes = facts_of(t, file, found, on_self, on_receiver).scopes;
    bindings_in_document_order(t, scopes, 0);
    let k = choose|k: int| 0 <= k < introduced(t, scopes, i).len()
        && introduced(t, scopes, i)[k] == b;
    in_order_each(bindings_of_nodes(t, scopes), 0, t.after(0), i, k);
    assert(bindings_at(t, scopes, 0).contains(b));
    starts_with(
        facts_of(t, file, found, on_self, on_receiver).bindings,
        bindings_at(t, facts_of(t, file, found, on_self, on_receiver).scopes, 0),
        b,
    );
}

proof fn fields_in_has(
    c: Ctx,
    prefix: Seq<DescriptorView>,
    implicit: bool,
    owner: int,
    lo: int,
    hi: int,
    j: int,
    x: SymbolView,
)
    requires
        0 <= lo,
        hi <= c.tree.len(),
        c.tree.reaches(lo, hi, j),
        field_symbols(c, prefix, implicit, owner, j).contains(x),
    ensures
        fields_in(c, prefix, implicit, owner, lo, hi).contains(x),
    decreases hi - lo,
{
    let own = field_symbols(c, prefix, implicit, owner, lo);
    let rest = fields_in(c, prefix, implicit, owner, c.tree.next(lo, hi), hi);
    if j != lo {
        fields_in_has(c, prefix, implicit, owner, c.tree.next(lo, hi), hi, j, x);
    }
    in_either(own, rest, x);
}

proof fn members_in_has(
    c: Ctx,
    prefix: Seq<DescriptorView>,
    implicit: bool,
    lo: int,
    hi: int,
    j: int,
    x: SymbolView,
)
    requires
        0 <= lo,
        hi <= c.tree.len(),
        c.tree.reaches(lo, hi, j),
        ((if c.tree.kind(j) == "enum_body_declarations"@ { members_in(c, prefix, implicit, j + 1, c.tree.after(j)) } else if is_method(c.tree, j) { method_symbols(c, prefix, implicit, j) } else if c.tree.kind(j) == "field_declaration"@ || c.tree.kind(j) == "constant_declaration"@ { fields_in(c, prefix, implicit, j, j + 1, c.tree.after(j)) } else { Seq::empty() })).contains(
            x,
        ),
    ensures
        members_in(c, prefix, implicit, lo, hi).contains(x),
    decreases hi - lo,
{
    let own = (if c.tree.kind(lo) == "enum_body_declarations"@ { members_in(c, prefix, implicit, lo + 1, c.tree.after(lo)) } else if is_method(c.tree, lo) { method_symbols(c, prefix, implicit, lo) } else if c.tree.kind(lo) == "field_declaration"@ || c.tree.kind(lo) == "constant_declaration"@ { fields_in(c, prefix, implicit, lo, lo + 1, c.tree.after(lo)) } else { Seq::empty() });
    let rest = members_in(c, prefix, implicit, c.tree.next(lo, hi), hi);
    if j != lo {
        members_in_has(c, prefix, implicit, c.tree.next(lo, hi), hi, j, x);
    }
    in_either(own, rest, x);
}

proof fn symbols_in_has(
    c: Ctx,
    prefix: Seq<DescriptorView>,
    lo: int,
    hi: int,
    j: int,
    x: SymbolView,
)
    requires
        0 <= lo,
        hi <= c.tree.len(),
        c.tree.reaches(lo, hi, j),
        type_symbols(c, prefix, j).contains(x),
    ensures
        symbols_in(c, prefix, lo, hi).contains(x),
    decreases hi - lo,
{
    let own = type_symbols(c, prefix, lo);
    let rest = symbols_in(c, prefix, c.tree.next(lo, hi), hi);
    if j != lo {
        symbols_in_has(c, prefix, c.tree.next(lo, hi), hi, j, x);
    }
    in_either(own, rest, x);
}

proof fn listed_in_has(t: Syntax, file: Seq<char>, lo: int, hi: int, j: int, x: ReferenceView)
    requires
        0 <= lo,
        hi <= t.len(),
        t.reaches(lo, hi, j),
        ((if t.named(j) { seq![base_of(t, file, j)] } else { Seq::empty() })).contains(x),
    ensures
        listed_in(t, file, lo, hi).contains(x),
    decreases hi - lo,
{
    let own = (if t.named(lo) { seq![base_of(t, file, lo)] } else { Seq::empty() });
    let rest = listed_in(t, file, t.next(lo, hi), hi);
    if j != lo {
        listed_in_has(t, file, t.next(lo, hi), hi, j, x);
    }
    in_either(own, rest, x);
}

proof fn natives_in_has(
    t: Syntax,
    file: Seq<char>,
    ns: Seq<Seq<char>>,
    class: Seq<char>,
    lo: int,
    hi: int,
    j: int,
    x: ReferenceView,
)
    requires
        0 <= lo,
        hi <= t.len(),
        t.reaches(lo, hi, j),
        ((if t.kind(j) == "enum_body_declarations"@ { natives_in(t, file, ns, class, j + 1, t.after(j)) } else { native_of(t, file, ns, class, j) })).contains(
            x,
        ),
    ensures
        natives_in(t, file, ns, class, lo, hi).contains(x),
    decreases hi - lo,
{
    let own = (if t.kind(lo) == "enum_body_declarations"@ { natives_in(t, file, ns, class, lo + 1, t.after(lo)) } else { native_of(t, file, ns, class, lo) });
    let rest = natives_in(t, file, ns, class, t.next(lo, hi), hi);
    if j != lo {
        natives_in_has(t, file, ns, class, t.next(lo, hi), hi, j, x);
    }
    in_either(own, rest, x);
}

proof fn all_natives_in_has(
    t: Syntax,
    file: Seq<char>,
    ns: Seq<Seq<char>>,
    lo: int,
    hi: int,
    j: int,
    x: ReferenceView,
)
    requires
        0 <= lo,
        hi <= t.len(),
        t.reaches(lo, hi, j),
        type_natives(t, file, ns, j).contains(x),
    ensures
        all_natives_in(t, file, ns, lo, hi).contains(x),
    decreases hi - lo,
{
    let own = type_natives(t, file, ns, lo);
    let rest = all_natives_in(t, file, ns, t.next(lo, hi), hi);
    if j != lo {
        all_natives_in_has(t, file, ns, t.next(lo, hi), hi, j, x);
    }
    in_either(own, rest, x);
}

proof fn args_in_has(t: Syntax, file: Seq<char>, lo: int, hi: int, j: int, x: ReferenceView)
    requires
        0 <= lo,
        hi <= t.len(),
        t.reaches(lo, hi, j),
        ((if !t.named(j) { Seq::empty() } else if t.kind(j) == "wildcard"@ { leaves_in(t, file, TypeRefContext::GenericArg, j + 1, t.after(j)) } else { leaves_at(t, file, TypeRefContext::GenericArg, j) })).contains(
            x,
        ),
    ensures
        args_in(t, file, lo, hi).contains(x),
    decreases hi - lo,
{
    let own = (if !t.named(lo) { Seq::empty() } else if t.kind(lo) == "wildcard"@ { leaves_in(t, file, TypeRefContext::GenericArg, lo + 1, t.after(lo)) } else { leaves_at(t, file, TypeRefContext::GenericArg, lo) });
    let rest = args_in(t, file, t.next(lo, hi), hi);
    if j != lo {
        args_in_has(t, file, t.next(lo, hi), hi, j, x);
    }
    in_either(own, rest, x);
}

proof fn leaves_in_has(
    t: Syntax,
    file: Seq<char>,
    ctx: TypeRefContext,
    lo: int,
    hi: int,
    j: int,
    x: ReferenceView,
)
    requires
        0 <= lo,
        hi <= t.len(),
        t.reaches(lo, hi, j),
        ((if t.named(j) { leaves_at(t, file, ctx, j) } else { Seq::empty() })).contains(x),
    ensures
        leaves_in(t, file, ctx, lo, hi).contains(x),
    decreases hi - lo,
{
    let own = (if t.named(lo) { leaves_at(t, file, ctx, lo) } else { Seq::empty() });
    let rest = leaves_in(t, file, ctx, t.next(lo, hi), hi);
    if j != lo {
        leaves_in_has(t, file, ctx, t.next(lo, hi), hi, j, x);
    }
    in_either(own, rest, x);
}

proof fn locals_in_has(
    t: Syntax,
    scopes: Seq<Scope>,
    owner: int,
    lo: int,
    hi: int,
    j: int,
    x: BindingView,
)
    requires
        0 <= lo,
        hi <= t.len(),
        t.reaches(lo, hi, j),
        local_at(t, scopes, owner, j).contains(x),
    ensures
        locals_in(t, scopes, owner, lo, hi).contains(x),
    decreases hi - lo,
{
    let own = local_at(t, scopes, owner, lo);
    let rest = locals_in(t, scopes, owner, t.next(lo, hi), hi);
    if j != lo {
        locals_in_has(t, scopes, owner, t.next(lo, hi), hi, j, x);
    }
    in_either(own, rest, x);
}

proof fn spread_names_in_has(
    t: Syntax,
    scopes: Seq<Scope>,
    lo: int,
    hi: int,
    j: int,
    x: BindingView,
)
    requires
        0 <= lo,
        hi <= t.len(),
        t.reaches(lo, hi, j),
        ((match t.child(j, "name"@) { Some(n) => if t.named(j) && t.kind(j) == "variable_declarator"@ { seq![plain_param(t, scopes, n)] } else { Seq::empty() }, None => Seq::empty(), })).contains(
            x,
        ),
    ensures
        spread_names_in(t, scopes, lo, hi).contains(x),
    decreases hi - lo,
{
    let own = (match t.child(lo, "name"@) { Some(n) => if t.named(lo) && t.kind(lo) == "variable_declarator"@ { seq![plain_param(t, scopes, n)] } else { Seq::empty() }, None => Seq::empty(), });
    let rest = spread_names_in(t, scopes, t.next(lo, hi), hi);
    if j != lo {
        spread_names_in_has(t, scopes, t.next(lo, hi), hi, j, x);
    }
    in_either(own, rest, x);
}

proof fn params_in_has(t: Syntax, scopes: Seq<Scope>, lo: int, hi: int, j: int, x: BindingView)
    requires
        0 <= lo,
        hi <= t.len(),
        t.reaches(lo, hi, j),
        param_at(t, scopes, j).contains(x),
    ensures
        params_in(t, scopes, lo, hi).contains(x),
    decreases hi - lo,
{
    let own = param_at(t, scopes, lo);
    let rest = params_in(t, scopes, t.next(lo, hi), hi);
    if j != lo {
        params_in_has(t, scopes, t.next(lo, hi), hi, j, x);
    }
    in_either(own, rest, x);
}

proof fn inferred_in_has(t: Syntax, scopes: Seq<Scope>, lo: int, hi: int, j: int, x: BindingView)
    requires
        0 <= lo,
        hi <= t.len(),
        t.reaches(lo, hi, j),
        ((if t.named(j) && t.kind(j) == "identifier"@ { seq![plain_param(t, scopes, j)] } else { Seq::empty() })).contains(
            x,
        ),
    ensures
        inferred_in(t, scopes, lo, hi).contains(x),
    decreases hi - lo,
{
    let own = (if t.named(lo) && t.kind(lo) == "identifier"@ { seq![plain_param(t, scopes, lo)] } else { Seq::empty() });
    let rest = inferred_in(t, scopes, t.next(lo, hi), hi);
    if j != lo {
        inferred_in_has(t, scopes, t.next(lo, hi), hi, j, x);
    }
    in_either(own, rest, x);
}

/// Whether a node declares a type.
pub open spec fn is_type(t: Syntax, i: int) -> bool {
    ||| t.kind(i) == "class_declaration"@
    ||| t.kind(i) == "record_declaration"@
    ||| t.kind(i) == "interface_declaration"@
    ||| t.kind(i) == "annotation_type_declaration"@
    ||| t.kind(i) == "enum_declaration"@
}

/// The kind of the type that a node declares: a record is a class, and an
/// annotation is an interface.
pub open spec fn sort_of(t: Syntax, i: int) -> SymbolKind {
    if t.kind(i) == "enum_declaration"@ {
        SymbolKind::Enum
    } else if t.kind(i) == "interface_declaration"@ || t.kind(i) == "annotation_type_declaration"@ {
        SymbolKind::Interface
    } else {
        SymbolKind::Class
    }
}

/// Whether a word is among the modifiers of node `i`.
pub open spec fn carries(t: Syntax, i: int, word: Seq<char>) -> bool {
    t.child_of_kind(i, "modifiers"@) matches Some(m) && exists|w: int| #[trigger] t.has_child(m, w)
        && t.text(w) == word
}

/// The visibility that the modifiers of node `i` give it, or `plain` where they
/// give none.
pub open spec fn shown(t: Syntax, i: int, plain: Visibility) -> Visibility {
    if carries(t, i, "private"@) {
        Visibility::Private
    } else if carries(t, i, "protected"@) {
        Visibility::Protected
    } else if carries(t, i, "public"@) {
        Visibility::Public
    } else {
        plain
    }
}

proof fn word_is_among(t: Syntax, lo: int, hi: int, word: Seq<char>)
    ensures
        word_in(t, lo, hi, word) <==> exists|w: int| #[trigger] t.reaches(lo, hi, w)
            && t.text(w) == word,
    decreases hi - lo,
{
    if lo < hi {
        word_is_among(t, t.next(lo, hi), hi, word);
        if word_in(t, lo, hi, word) {
            if t.text(lo) == word {
                assert(t.reaches(lo, hi, lo));
            } else {
                let w = choose|w: int| #[trigger] t.reaches(t.next(lo, hi), hi, w)
                    && t.text(w) == word;
                assert(t.reaches(lo, hi, w));
            }
        } else {
            assert forall|w: int| #[trigger] t.reaches(lo, hi, w) implies t.text(w) != word by {
                if w != lo {
                    assert(t.reaches(t.next(lo, hi), hi, w));
                }
            }
        }
    }
}

proof fn modifiers_are_carried(t: Syntax, i: int, word: Seq<char>)
    requires
        t.has(i),
    ensures
        modified(t, i, word) == carries(t, i, word),
{
    if let Some(m) = t.child_of_kind(i, "modifiers"@) {
        word_is_among(t, m + 1, t.after(m), word);
        if modified(t, i, word) {
            let w = choose|w: int| #[trigger] t.reaches(m + 1, t.after(m), w) && t.text(w) == word;
            assert(t.has_child(m, w));
        }
        if carries(t, i, word) {
            let w = choose|w: int| #[trigger] t.has_child(m, w) && t.text(w) == word;
            assert(t.reaches(m + 1, t.after(m), w));
        }
    }
}

proof fn visibility_is_shown(t: Syntax, i: int, implicit: bool)
    requires
        t.has(i),
    ensures
        visibility_at(t, i, implicit) == shown(
            t,
            i,
            if implicit { Visibility::Public } else { Visibility::Internal },
        ),
{
    modifiers_are_carried(t, i, "private"@);
    modifiers_are_carried(t, i, "protected"@);
    modifiers_are_carried(t, i, "public"@);
}

/// Each type with a name at the top of a Java file is defined, with the
/// visibility of its modifiers. It is internal without any.
pub proof fn types_are_defined(
    t: Syntax,
    file: Seq<char>,
    found: Seq<Seq<CaptureView>>,
    on_self: Seq<Seq<CaptureView>>,
    on_receiver: Seq<Seq<CaptureView>>,
    i: int,
    n: int,
)
    requires
        t.has_child(0, i),
        is_type(t, i),
        t.child(i, "name"@) == Some(n),
    ensures
        defines_as(
            facts_of(t, file, found, on_self, on_receiver),
            t,
            i,
            t.text(n),
            sort_of(t, i),
            shown(t, i, Visibility::Internal),
        ),
{
    type_kind_kinds();
    let c = context(t, file);
    let prefix = steps(t, file);
    reached_is_behind(t, 1, t.after(0), i);
    visibility_is_shown(t, i, false);
    let x = type_symbols(c, prefix, i)[0];
    assert(type_symbols(c, prefix, i).contains(x));
    symbols_in_has(c, prefix, 1, t.after(0), i, x);
    starts_with(
        facts_of(t, file, found, on_self, on_receiver).symbols,
        symbols_in(c, prefix, 1, t.after(0)),
        x,
    );
}

/// Whether node `i` is a member of the body `body`, or of the declarations behind
/// the constants of an enum.
pub open spec fn is_member(t: Syntax, body: int, i: int) -> bool
    decreases i,
{
    t.has_child(body, i) || exists|group: int|
        #![trigger t.has_child(group, i)]
        0 < group < i && is_member(t, body, group) && t.kind(group) == "enum_body_declarations"@
            && t.has_child(group, i)
}

/// What a member of a type defines.
spec fn placed(c: Ctx, prefix: Seq<DescriptorView>, implicit: bool, i: int) -> Seq<SymbolView> {
    let t = c.tree;
    if t.kind(i) == "enum_body_declarations"@ {
        members_in(c, prefix, implicit, i + 1, t.after(i))
    } else if is_method(t, i) {
        method_symbols(c, prefix, implicit, i)
    } else if t.kind(i) == "field_declaration"@ || t.kind(i) == "constant_declaration"@ {
        fields_in(c, prefix, implicit, i, i + 1, t.after(i))
    } else {
        Seq::empty()
    }
}

proof fn member_is_among(
    c: Ctx,
    prefix: Seq<DescriptorView>,
    implicit: bool,
    body: int,
    i: int,
    x: SymbolView,
)
    requires
        is_member(c.tree, body, i),
        c.tree.has(body),
        placed(c, prefix, implicit, i).contains(x),
    ensures
        members_in(c, prefix, implicit, body + 1, c.tree.after(body)).contains(x),
    decreases i,
{
    let t = c.tree;
    if t.has_child(body, i) {
        members_in_has(c, prefix, implicit, body + 1, t.after(body), i, x);
    } else {
        let group = choose|group: int|
            #![trigger t.has_child(group, i)]
            0 < group < i && is_member(t, body, group)
                && t.kind(group) == "enum_body_declarations"@ && t.has_child(group, i);
        members_in_has(c, prefix, implicit, group + 1, t.after(group), i, x);
        member_is_among(c, prefix, implicit, body, group, x);
    }
}

/// Whether a node declares an interface or an annotation.
pub open spec fn opens_members(t: Syntax, i: int) -> bool {
    t.kind(i) == "interface_declaration"@ || t.kind(i) == "annotation_type_declaration"@
}

/// The steps under which the members of a type are defined.
proof fn members_are_placed(
    c: Ctx,
    prefix: Seq<DescriptorView>,
    i: int,
    body: int,
) -> (outer: SymbolView)
    requires
        c.tree.has_child(0, i),
        is_type(c.tree, i),
        c.tree.child(i, "name"@) is Some,
        c.tree.child(i, "body"@) == Some(body),
    ensures
        symbols_in(c, prefix, 1, c.tree.after(0)).contains(outer),
        outer.occ == occurrence_at(c.tree, c.file, i),
        forall|x: SymbolView| #[trigger] members_in(c, outer.id, opens_members(c.tree, i), body + 1, c.tree.after(body)).contains(
            x,
        )
            ==> symbols_in(c, prefix, 1, c.tree.after(0)).contains(x),
{
    type_kind_kinds();
    let t = c.tree;
    reached_is_behind(t, 1, t.after(0), i);
    let name = t.text(t.child(i, "name"@)->0);
    let at = prefix + seq![DescriptorView::Type(name)];
    let members = members_in(c, at, opens_members(t, i), body + 1, t.after(body));
    let first = seq![type_symbols(c, prefix, i)[0]];
    assert(type_symbols(c, prefix, i) =~= first + members);
    assert forall|x: SymbolView| #[trigger] members_in(c, at, opens_members(t, i), body + 1, t.after(body)).contains(x) implies symbols_in(c, prefix, 1, t.after(0)).contains(x) by {
        in_either(first, members, x);
        symbols_in_has(c, prefix, 1, t.after(0), i, x);
    }
    let outer = type_symbols(c, prefix, i)[0];
    assert(type_symbols(c, prefix, i).contains(outer));
    symbols_in_has(c, prefix, 1, t.after(0), i, outer);
    assert(outer.id =~= at);
    outer
}

/// Each method, constructor and annotation element with a name in a type at the
/// top of a Java file is a method with the visibility of its modifiers. Without
/// any it is public in an interface and internal elsewhere.
pub proof fn methods_are_defined(
    t: Syntax,
    file: Seq<char>,
    found: Seq<Seq<CaptureView>>,
    on_self: Seq<Seq<CaptureView>>,
    on_receiver: Seq<Seq<CaptureView>>,
    owner: int,
    body: int,
    i: int,
    n: int,
)
    requires
        t.has_child(0, owner),
        is_type(t, owner),
        t.child(owner, "name"@) is Some,
        t.child(owner, "body"@) == Some(body),
        is_member(t, body, i),
        t.has(i),
        t.kind(i) == "method_declaration"@ || t.kind(i) == "constructor_declaration"@
            || t.kind(i) == "compact_constructor_declaration"@
            || t.kind(i) == "annotation_type_element_declaration"@,
        t.child(i, "name"@) == Some(n),
    ensures
        defines_as(
            facts_of(t, file, found, on_self, on_receiver),
            t,
            i,
            t.text(n),
            SymbolKind::Method,
            shown(
                t,
                i,
                if opens_members(t, owner) { Visibility::Public } else { Visibility::Internal },
            ),
        ),
        defines_in(
            facts_of(t, file, found, on_self, on_receiver),
            t,
            owner,
            i,
            t.text(n),
            SymbolKind::Method,
        ),
{
    members_in_kinds();
    let c = context(t, file);
    let prefix = steps(t, file);
    let outer = members_are_placed(c, prefix, owner, body);
    let at = outer.id;
    let implicit = opens_members(t, owner);
    visibility_is_shown(t, i, implicit);
    let x = method_symbols(c, at, implicit, i)[0];
    assert(method_symbols(c, at, implicit, i).contains(x));
    member_is_among(c, at, implicit, body, i, x);
    starts_with(
        facts_of(t, file, found, on_self, on_receiver).symbols,
        symbols_in(c, prefix, 1, t.after(0)),
        x,
    );
    starts_with(
        facts_of(t, file, found, on_self, on_receiver).symbols,
        symbols_in(c, prefix, 1, t.after(0)),
        outer,
    );
    assert(x.id =~= outer.id.push(x.id.last()));
}

/// A static method with the name `main` in a type at the top of a Java file is
/// where the program starts.
pub proof fn programs_start_at_main(
    t: Syntax,
    file: Seq<char>,
    found: Seq<Seq<CaptureView>>,
    on_self: Seq<Seq<CaptureView>>,
    on_receiver: Seq<Seq<CaptureView>>,
    owner: int,
    body: int,
    i: int,
    n: int,
)
    requires
        t.has_child(0, owner),
        is_type(t, owner),
        t.child(owner, "name"@) is Some,
        t.child(owner, "body"@) == Some(body),
        is_member(t, body, i),
        t.has(i),
        t.kind(i) == "method_declaration"@ || t.kind(i) == "constructor_declaration"@
            || t.kind(i) == "compact_constructor_declaration"@
            || t.kind(i) == "annotation_type_element_declaration"@,
        t.child(i, "name"@) == Some(n),
        t.text(n) == "main"@,
        carries(t, i, "static"@),
    ensures
        is_entered(
            facts_of(t, file, found, on_self, on_receiver),
            t,
            i,
            t.text(n),
            EntryPointView::Main,
        ),
{
    members_in_kinds();
    let c = context(t, file);
    let prefix = steps(t, file);
    let outer = members_are_placed(c, prefix, owner, body);
    let at = outer.id;
    let implicit = opens_members(t, owner);
    visibility_is_shown(t, i, implicit);
    modifiers_are_carried(t, i, "static"@);
    let x = method_symbols(c, at, implicit, i)[0];
    assert(x.entry_points[0] == EntryPointView::Main);
    assert(method_symbols(c, at, implicit, i).contains(x));
    member_is_among(c, at, implicit, body, i, x);
    starts_with(
        facts_of(t, file, found, on_self, on_receiver).symbols,
        symbols_in(c, prefix, 1, t.after(0)),
        x,
    );
}

/// Whether an annotation marks a place that requests come to.
pub open spec fn routes(name: Seq<char>) -> bool {
    ||| name == "RestController"@
    ||| name == "Controller"@
    ||| name == "RequestMapping"@
    ||| name == "GetMapping"@
    ||| name == "PostMapping"@
    ||| name == "PutMapping"@
    ||| name == "DeleteMapping"@
    ||| name == "PatchMapping"@
    ||| name == "GET"@
    ||| name == "POST"@
    ||| name == "PUT"@
    ||| name == "DELETE"@
    ||| name == "PATCH"@
    ||| name == "HEAD"@
    ||| name == "OPTIONS"@
    ||| name == "Path"@
}

proof fn route_is_among(t: Syntax, lo: int, hi: int, a: int, way: EntryPointView)
    requires
        t.reaches(lo, hi, a),
        route_of(t, a).contains(way),
    ensures
        routes_in(t, lo, hi).contains(way),
    decreases hi - lo,
{
    if lo != a {
        route_is_among(t, t.next(lo, hi), hi, a, way);
    }
    in_either(route_of(t, lo), routes_in(t, t.next(lo, hi), hi), way);
}

proof fn route_is_entry(t: Syntax, name: Option<Seq<char>>, i: int, m: int, a: int, r: int)
    requires
        t.child_of_kind(i, "modifiers"@) == Some(m),
        t.has_child(m, a),
        t.kind(a) == "marker_annotation"@ || t.kind(a) == "annotation"@,
        t.child(a, "name"@) == Some(r),
        routes(simple_name(t.text(r), "."@)),
    ensures
        entry_points_at(t, name, i).contains(
            EntryPointView::HttpRoute(simple_name(t.text(r), "."@)),
        ),
{
    let way = EntryPointView::HttpRoute(simple_name(t.text(r), "."@));
    assert(route_of(t, a)[0] == way);
    route_is_among(t, m + 1, t.after(m), a, way);
    let main = if name == Some("main"@) && modified(t, i, "static"@) {
        seq![EntryPointView::Main]
    } else {
        Seq::empty()
    };
    in_either(main, routes_in(t, m + 1, t.after(m)), way);
}

/// A method with an annotation that marks a place that requests come to is
/// entered there.
pub proof fn routed_methods_are_entered(
    t: Syntax,
    file: Seq<char>,
    found: Seq<Seq<CaptureView>>,
    on_self: Seq<Seq<CaptureView>>,
    on_receiver: Seq<Seq<CaptureView>>,
    owner: int,
    body: int,
    i: int,
    n: int,
    m: int,
    a: int,
    r: int,
)
    requires
        t.has_child(0, owner),
        is_type(t, owner),
        t.child(owner, "name"@) is Some,
        t.child(owner, "body"@) == Some(body),
        is_member(t, body, i),
        t.has(i),
        t.kind(i) == "method_declaration"@ || t.kind(i) == "constructor_declaration"@
            || t.kind(i) == "compact_constructor_declaration"@
            || t.kind(i) == "annotation_type_element_declaration"@,
        t.child(i, "name"@) == Some(n),
        t.child_of_kind(i, "modifiers"@) == Some(m),
        t.has_child(m, a),
        t.kind(a) == "marker_annotation"@ || t.kind(a) == "annotation"@,
        t.child(a, "name"@) == Some(r),
        routes(simple_name(t.text(r), "."@)),
    ensures
        is_entered(
            facts_of(t, file, found, on_self, on_receiver),
            t,
            i,
            t.text(n),
            EntryPointView::HttpRoute(simple_name(t.text(r), "."@)),
        ),
{
    members_in_kinds();
    let c = context(t, file);
    let prefix = steps(t, file);
    let outer = members_are_placed(c, prefix, owner, body);
    let at = outer.id;
    let implicit = opens_members(t, owner);
    visibility_is_shown(t, i, implicit);
    let x = method_symbols(c, at, implicit, i)[0];
    route_is_entry(t, Some(t.text(n)), i, m, a, r);
    assert(method_symbols(c, at, implicit, i).contains(x));
    member_is_among(c, at, implicit, body, i, x);
    starts_with(
        facts_of(t, file, found, on_self, on_receiver).symbols,
        symbols_in(c, prefix, 1, t.after(0)),
        x,
    );
}

/// A type with an annotation that marks a place that requests come to is
/// entered there.
pub proof fn routed_types_are_entered(
    t: Syntax,
    file: Seq<char>,
    found: Seq<Seq<CaptureView>>,
    on_self: Seq<Seq<CaptureView>>,
    on_receiver: Seq<Seq<CaptureView>>,
    i: int,
    n: int,
    m: int,
    a: int,
    r: int,
)
    requires
        t.has_child(0, i),
        is_type(t, i),
        t.child(i, "name"@) == Some(n),
        t.child_of_kind(i, "modifiers"@) == Some(m),
        t.has_child(m, a),
        t.kind(a) == "marker_annotation"@ || t.kind(a) == "annotation"@,
        t.child(a, "name"@) == Some(r),
        routes(simple_name(t.text(r), "."@)),
    ensures
        is_entered(
            facts_of(t, file, found, on_self, on_receiver),
            t,
            i,
            t.text(n),
            EntryPointView::HttpRoute(simple_name(t.text(r), "."@)),
        ),
{
    type_kind_kinds();
    let c = context(t, file);
    let prefix = steps(t, file);
    let x = type_symbols(c, prefix, i)[0];
    route_is_entry(t, None, i, m, a, r);
    assert(type_symbols(c, prefix, i).contains(x));
    symbols_in_has(c, prefix, 1, t.after(0), i, x);
    starts_with(
        facts_of(t, file, found, on_self, on_receiver).symbols,
        symbols_in(c, prefix, 1, t.after(0)),
        x,
    );
}

/// Each declarator with a name of a field or a constant in a type at the top of
/// a Java file is a static variable at the field, with the visibility of the
/// field.
pub proof fn fields_are_defined(
    t: Syntax,
    file: Seq<char>,
    found: Seq<Seq<CaptureView>>,
    on_self: Seq<Seq<CaptureView>>,
    on_receiver: Seq<Seq<CaptureView>>,
    owner: int,
    body: int,
    i: int,
    d: int,
    n: int,
)
    requires
        t.has_child(0, owner),
        is_type(t, owner),
        t.child(owner, "name"@) is Some,
        t.child(owner, "body"@) == Some(body),
        is_member(t, body, i),
        t.has(i),
        t.kind(i) == "field_declaration"@ || t.kind(i) == "constant_declaration"@,
        t.has_child(i, d),
        t.in_field(d, "declarator"@),
        t.child(d, "name"@) == Some(n),
    ensures
        defines_as(
            facts_of(t, file, found, on_self, on_receiver),
            t,
            i,
            t.text(n),
            SymbolKind::Static,
            shown(
                t,
                i,
                if opens_members(t, owner) { Visibility::Public } else { Visibility::Internal },
            ),
        ),
        defines_in(
            facts_of(t, file, found, on_self, on_receiver),
            t,
            owner,
            i,
            t.text(n),
            SymbolKind::Static,
        ),
{
    members_in_kinds();
    is_method_kinds();
    let c = context(t, file);
    let prefix = steps(t, file);
    let outer = members_are_placed(c, prefix, owner, body);
    let at = outer.id;
    let implicit = opens_members(t, owner);
    visibility_is_shown(t, i, implicit);
    let x = field_symbols(c, at, implicit, i, d)[0];
    assert(field_symbols(c, at, implicit, i, d).contains(x));
    fields_in_has(c, at, implicit, i, i + 1, t.after(i), d, x);
    member_is_among(c, at, implicit, body, i, x);
    starts_with(
        facts_of(t, file, found, on_self, on_receiver).symbols,
        symbols_in(c, prefix, 1, t.after(0)),
        x,
    );
    starts_with(
        facts_of(t, file, found, on_self, on_receiver).symbols,
        symbols_in(c, prefix, 1, t.after(0)),
        outer,
    );
    assert(x.id =~= outer.id.push(x.id.last()));
}

/// A class implements its superclass.
pub proof fn superclasses_are_implemented(
    t: Syntax,
    file: Seq<char>,
    found: Seq<Seq<CaptureView>>,
    on_self: Seq<Seq<CaptureView>>,
    on_receiver: Seq<Seq<CaptureView>>,
    i: int,
    s: int,
    n: int,
)
    requires
        t.nested(),
        0 <= i < t.after(0),
        t.kind(i) == "class_declaration"@,
        t.child(i, "superclass"@) == Some(s),
        t.named_child(s) == Some(n),
    ensures
        refers(
            facts_of(t, file, found, on_self, on_receiver),
            t,
            n,
            simple_name(t.text(n), "."@),
            RefRole::IsImplementation,
        ),
{
    declared_bases_kinds();
    let above = match t.child(i, "superclass"@) {
        Some(s) => match t.named_child(s) {
            Some(base) => seq![base_of(t, file, base)],
            None => Seq::empty(),
        },
        None => Seq::empty(),
    };
    let others = match t.child(i, "interfaces"@) {
        Some(clause) => clause_bases(t, file, clause),
        None => Seq::empty(),
    };
    assert(above[0] == base_of(t, file, n));
    in_either(above, others, base_of(t, file, n));
    let x = reference_at(t, file, n, simple_name(t.text(n), "."@), RefRole::IsImplementation);
    inherits_reported(t, file, found, on_self, on_receiver, i, x);
}

/// A class implements each of its interfaces, and an interface each one that it
/// extends.
pub proof fn interfaces_are_implemented(
    t: Syntax,
    file: Seq<char>,
    found: Seq<Seq<CaptureView>>,
    on_self: Seq<Seq<CaptureView>>,
    on_receiver: Seq<Seq<CaptureView>>,
    i: int,
    clause: int,
    list: int,
    n: int,
)
    requires
        t.nested(),
        0 <= i < t.after(0),
        (t.kind(i) == "class_declaration"@ && t.child(i, "interfaces"@) == Some(clause))
            || (t.kind(i) == "interface_declaration"@ && t.child_of_kind(i, "extends_interfaces"@) == Some(clause)),
        t.child_of_kind(clause, "type_list"@) == Some(list),
        t.has_child(list, n),
        t.named(n),
    ensures
        refers(
            facts_of(t, file, found, on_self, on_receiver),
            t,
            n,
            simple_name(t.text(n), "."@),
            RefRole::IsImplementation,
        ),
{
    declared_bases_kinds();
    let above = match t.child(i, "superclass"@) {
        Some(s) => match t.named_child(s) {
            Some(base) => seq![base_of(t, file, base)],
            None => Seq::empty(),
        },
        None => Seq::empty(),
    };
    let others = match t.child(i, "interfaces"@) {
        Some(clause) => clause_bases(t, file, clause),
        None => Seq::empty(),
    };
    let b = base_of(t, file, n);
    assert(seq![b][0] == b);
    listed_in_has(t, file, list + 1, t.after(list), n, b);
    in_either(above, others, b);
    let x = reference_at(t, file, n, simple_name(t.text(n), "."@), RefRole::IsImplementation);
    inherits_reported(t, file, found, on_self, on_receiver, i, x);
}

/// An import that does not end with an asterisk is reported under the last
/// piece of its name, from the pieces before.
pub proof fn imports_are_reported(
    t: Syntax,
    file: Seq<char>,
    found: Seq<Seq<CaptureView>>,
    on_self: Seq<Seq<CaptureView>>,
    on_receiver: Seq<Seq<CaptureView>>,
    i: int,
    p: int,
    n: int,
)
    requires
        t.nested(),
        0 <= i < t.after(0),
        t.kind(i) == "import_declaration"@,
        t.child_of_kind(i, "asterisk"@) is None,
        t.child_of_kind(i, "scoped_identifier"@) == Some(p),
        t.child(p, "name"@) == Some(n),
        forall|j: int, k: int| t.has(j) && t.kind(j) == "import_declaration"@
            && j < k < #[trigger] t.after(j)
            ==> #[trigger] t.kind(k) != "import_declaration"@,
    ensures
        imports(
            facts_of(t, file, found, on_self, on_receiver),
            t,
            n,
            t.text(n),
            match t.child(p, "scope"@) { Some(s) => if t.text(s).len() > 0 { Some(t.text(s)) } else { None }, None => None },
        ),
{
    let x = import_of(t, file, own_module(t, file), i)[0];
    assert(import_of(t, file, own_module(t, file), i)[0] == x);
    imports_reported(t, file, found, on_self, on_receiver, i, x);
}

/// An import of one identifier is reported under it, from nowhere.
pub proof fn short_imports_are_reported(
    t: Syntax,
    file: Seq<char>,
    found: Seq<Seq<CaptureView>>,
    on_self: Seq<Seq<CaptureView>>,
    on_receiver: Seq<Seq<CaptureView>>,
    i: int,
    n: int,
)
    requires
        t.nested(),
        0 <= i < t.after(0),
        t.kind(i) == "import_declaration"@,
        t.child_of_kind(i, "asterisk"@) is None,
        t.child_of_kind(i, "scoped_identifier"@) is None,
        t.child_of_kind(i, "identifier"@) == Some(n),
        forall|j: int, k: int| t.has(j) && t.kind(j) == "import_declaration"@
            && j < k < #[trigger] t.after(j)
            ==> #[trigger] t.kind(k) != "import_declaration"@,
    ensures
        imports(facts_of(t, file, found, on_self, on_receiver), t, n, t.text(n), None),
{
    let x = import_of(t, file, own_module(t, file), i)[0];
    assert(import_of(t, file, own_module(t, file), i)[0] == x);
    imports_reported(t, file, found, on_self, on_receiver, i, x);
}

proof fn native_is_among(
    t: Syntax,
    file: Seq<char>,
    ns: Seq<Seq<char>>,
    class: Seq<char>,
    body: int,
    i: int,
    r: ReferenceView,
)
    requires
        is_member(t, body, i),
        t.has(body),
        (if t.kind(i) == "enum_body_declarations"@ {
            natives_in(t, file, ns, class, i + 1, t.after(i))
        } else {
            native_of(t, file, ns, class, i)
        }).contains(r),
    ensures
        natives_in(t, file, ns, class, body + 1, t.after(body)).contains(r),
    decreases i,
{
    if t.has_child(body, i) {
        natives_in_has(t, file, ns, class, body + 1, t.after(body), i, r);
    } else {
        let group = choose|group: int|
            #![trigger t.has_child(group, i)]
            0 < group < i && is_member(t, body, group)
                && t.kind(group) == "enum_body_declarations"@ && t.has_child(group, i);
        natives_in_has(t, file, ns, class, group + 1, t.after(group), i, r);
        native_is_among(t, file, ns, class, body, group, r);
    }
}

/// A native method of a class, an interface, an enum or a record at the top of
/// a Java file calls the function with the name that is made up of the package,
/// the type and the method.
pub proof fn native_methods_call(
    t: Syntax,
    file: Seq<char>,
    found: Seq<Seq<CaptureView>>,
    on_self: Seq<Seq<CaptureView>>,
    on_receiver: Seq<Seq<CaptureView>>,
    owner: int,
    body: int,
    cn: int,
    i: int,
    n: int,
)
    requires
        t.has_child(0, owner),
        t.kind(owner) == "class_declaration"@ || t.kind(owner) == "interface_declaration"@
            || t.kind(owner) == "enum_declaration"@ || t.kind(owner) == "record_declaration"@,
        t.child(owner, "name"@) == Some(cn),
        t.child(owner, "body"@) == Some(body),
        is_member(t, body, i),
        t.has(i),
        t.kind(i) == "method_declaration"@,
        carries(t, i, "native"@),
        t.child(i, "name"@) == Some(n),
    ensures
        refers(
            facts_of(t, file, found, on_self, on_receiver),
            t,
            n,
            mangled(package_parts(t), t.text(cn), t.text(n)),
            RefRole::Call,
        ),
{
    natives_in_kinds();
    let ns = package_parts(t);
    let r = reference_at(t, file, n, mangled(ns, t.text(cn), t.text(n)), RefRole::Call);
    modifiers_are_carried(t, i, "native"@);
    reached_is_behind(t, 1, t.after(0), owner);
    assert(native_of(t, file, ns, t.text(cn), i)[0] == r);
    native_is_among(t, file, ns, t.text(cn), body, i, r);
    all_natives_in_has(t, file, ns, 1, t.after(0), owner, r);
    in_either(
        calls_qualified(t.source, file, found, on_self, on_receiver) + inherits_at(t, file, 0)
            + imports_at(t, file, own_module(t, file), 0),
        all_natives_in(t, file, package_parts(t), 1, t.after(0)),
        r,
    );
    in_either(
        calls_qualified(t.source, file, found, on_self, on_receiver) + inherits_at(t, file, 0)
            + imports_at(t, file, own_module(t, file), 0)
            + all_natives_in(t, file, package_parts(t), 1, t.after(0)),
        type_refs_at(t, file, 0),
        r,
    );
    in_either(
        calls_qualified(t.source, file, found, on_self, on_receiver) + inherits_at(t, file, 0)
            + imports_at(t, file, own_module(t, file), 0)
            + all_natives_in(t, file, package_parts(t), 1, t.after(0)) + type_refs_at(t, file, 0),
        reads_at(t, file, 0),
        r,
    );
    in_either(
        calls_qualified(t.source, file, found, on_self, on_receiver) + inherits_at(t, file, 0)
            + imports_at(t, file, own_module(t, file), 0)
            + all_natives_in(t, file, package_parts(t), 1, t.after(0)) + type_refs_at(t, file, 0)
            + reads_at(t, file, 0),
        writes_at(t, file, 0),
        r,
    );
    is_reported(
        facts_of(t, file, found, on_self, on_receiver),
        references_of(t, file, own_module(t, file), found, on_self, on_receiver),
        r,
    );
}

/// Whether the type `i` at a position leads to the type name `n` at the position
/// `at`: it is that name, or ends with it where it is scoped, or the elements of an
/// array or the base of a generic type lead to it. What stands between brackets is
/// an argument.
pub open spec fn leads_to(
    t: Syntax,
    i: int,
    position: TypeRefContext,
    n: int,
    at: TypeRefContext,
) -> bool
    decreases n - i,
{
    if i >= n {
        i == n && t.kind(i) == "type_identifier"@ && position == at
    } else if t.kind(i) == "array_type"@ {
        t.child(i, "element"@) matches Some(c) && i < c <= n && leads_to(t, c, position, n, at)
    } else if t.kind(i) == "scoped_type_identifier"@ {
        t.has_child(i, n) && t.kind(n) == "type_identifier"@ && position == at
            && forall|e: int| #[trigger] t.has_child(i, e) && n < e
            ==> t.kind(e) != "type_identifier"@
    } else if t.kind(i) == "generic_type"@ {
        ||| t.named_child(i) matches Some(c) && i < c <= n && leads_to(t, c, position, n, at)
        ||| t.child_of_kind(i, "type_arguments"@) matches Some(args) && i < args
            && exists|c: int, w: int|
            #![trigger t.has_child(args, w), t.has_child(w, c)]
            t.has_child(args, w) && t.named(w) && t.kind(w) == "wildcard"@ && t.has_child(w, c)
                && t.named(c) && i < c <= n && leads_to(t, c, TypeRefContext::GenericArg, n, at)
        ||| t.child_of_kind(i, "type_arguments"@) matches Some(args) && i < args && exists|c: int|
            #[trigger] t.has_child(args, c) && t.named(c) && t.kind(c) != "wildcard"@ && i < c <= n
                && leads_to(t, c, TypeRefContext::GenericArg, n, at)
    } else {
        false
    }
}

proof fn last_name_is(t: Syntax, lo: int, hi: int, found: Option<int>, n: int)
    requires
        (t.reaches(lo, hi, n) && t.kind(n) == "type_identifier"@ && forall|e: int| #[trigger] t.reaches(lo, hi, e) && n < e ==> t.kind(e) != "type_identifier"@)
            || (found == Some(n) && forall|e: int| #[trigger] t.reaches(lo, hi, e) ==> t.kind(e) != "type_identifier"@),
    ensures
        last_name_in(t, lo, hi, found) == Some(n),
    decreases hi - lo,
{
    if lo < hi {
        let next = t.next(lo, hi);
        assert(t.reaches(lo, hi, lo));
        assert forall|e: int| #[trigger] t.reaches(next, hi, e) implies t.reaches(lo, hi, e) && lo < e by {
            reached_is_behind(t, next, hi, e);
        }
        if t.reaches(lo, hi, n) {
            reached_is_behind(t, lo, hi, n);
            if lo < n {
                assert(t.reaches(next, hi, n));
            }
        }
        last_name_is(
            t,
            next,
            hi,
            if t.kind(lo) == "type_identifier"@ { Some(lo) } else { found },
            n,
        );
    }
}

proof fn leaves_are_found(
    t: Syntax,
    file: Seq<char>,
    i: int,
    position: TypeRefContext,
    n: int,
    at: TypeRefContext,
)
    requires
        t.has(i),
        leads_to(t, i, position, n, at),
    ensures
        leaves_at(t, file, position, i).contains(type_reference_at(t, file, n, t.text(n), at)),
    decreases n - i,
{
    leaves_at_kinds();
    let x = type_reference_at(t, file, n, t.text(n), at);
    if i >= n {
        assert(leaves_at(t, file, position, i)[0] == x);
    } else if t.kind(i) == "array_type"@ {
        leaves_are_found(t, file, t.child(i, "element"@)->0, position, n, at);
    } else if t.kind(i) == "scoped_type_identifier"@ {
        assert forall|e: int| #[trigger] t.reaches(i + 1, t.after(i), e) && n < e implies t.kind(e) != "type_identifier"@ by {
            assert(t.has_child(i, e));
        }
        last_name_is(t, i + 1, t.after(i), None, n);
        assert(leaves_at(t, file, position, i)[0] == x);
    } else {
        let own = match t.named_child(i) {
            Some(base) => leaves_at(t, file, position, base),
            None => Seq::empty(),
        };
        let arguments = match t.child_of_kind(i, "type_arguments"@) {
            Some(args) => args_in(t, file, args + 1, t.after(args)),
            None => Seq::empty(),
        };
        if t.named_child(i) matches Some(c) && i < c <= n && leads_to(t, c, position, n, at) {
            leaves_are_found(t, file, t.named_child(i)->0, position, n, at);
        } else {
            let args = t.child_of_kind(i, "type_arguments"@)->0;
            if exists|c: int|
                #[trigger] t.has_child(args, c) && t.named(c) && t.kind(c) != "wildcard"@ && i < c <= n && leads_to(t, c, TypeRefContext::GenericArg, n, at) {
                let c = choose|c: int|
                    #[trigger] t.has_child(args, c) && t.named(c) && t.kind(c) != "wildcard"@
                        && i < c <= n && leads_to(t, c, TypeRefContext::GenericArg, n, at);
                reached_is_behind(t, args + 1, t.after(args), c);
                leaves_are_found(t, file, c, TypeRefContext::GenericArg, n, at);
                args_in_has(t, file, args + 1, t.after(args), c, x);
            } else {
                let (c, w) = choose|c: int, w: int|
                    #![trigger t.has_child(args, w), t.has_child(w, c)]
                    t.has_child(args, w) && t.named(w) && t.kind(w) == "wildcard"@
                        && t.has_child(w, c) && t.named(c) && i < c <= n
                        && leads_to(t, c, TypeRefContext::GenericArg, n, at);
                reached_is_behind(t, args + 1, t.after(args), w);
                reached_is_behind(t, w + 1, t.after(w), c);
                leaves_are_found(t, file, c, TypeRefContext::GenericArg, n, at);
                leaves_in_has(t, file, TypeRefContext::GenericArg, w + 1, t.after(w), c, x);
                args_in_has(t, file, args + 1, t.after(args), w, x);
            }
        }
        in_either(own, arguments, x);
    }
}

/// A method refers to the type names that its result leads to, a parameter and
/// a field to those that theirs lead to.
pub proof fn types_are_referred_to(
    t: Syntax,
    file: Seq<char>,
    found: Seq<Seq<CaptureView>>,
    on_self: Seq<Seq<CaptureView>>,
    on_receiver: Seq<Seq<CaptureView>>,
    i: int,
    ty: int,
    position: TypeRefContext,
    n: int,
    at: TypeRefContext,
)
    requires
        t.nested(),
        0 <= i < t.after(0),
        (t.kind(i) == "method_declaration"@ && t.child(i, "type"@) == Some(ty) && position == TypeRefContext::ReturnType)
            || (t.kind(i) == "formal_parameter"@ && t.child(i, "type"@) == Some(ty) && position == TypeRefContext::ParameterType)
            || (t.kind(i) == "spread_parameter"@ && t.named_child(i) == Some(ty) && position == TypeRefContext::ParameterType)
            || (t.kind(i) == "field_declaration"@ && t.child(i, "type"@) == Some(ty) && position == TypeRefContext::Field),
        leads_to(t, ty, position, n, at),
    ensures
        refers_to_type(facts_of(t, file, found, on_self, on_receiver), t, n, t.text(n), at),
{
    reported_type_kinds();
    leaves_are_found(t, file, ty, position, n, at);
    let x = type_reference_at(t, file, n, t.text(n), at);
    type_refs_reported(t, file, found, on_self, on_receiver, i, x);
}

/// An assignment, whatever its operator, writes the identifier on its left.
pub proof fn assignments_write(
    t: Syntax,
    file: Seq<char>,
    found: Seq<Seq<CaptureView>>,
    on_self: Seq<Seq<CaptureView>>,
    on_receiver: Seq<Seq<CaptureView>>,
    i: int,
    left: int,
)
    requires
        t.nested(),
        0 <= i < t.after(0),
        t.kind(i) == "assignment_expression"@,
        t.child(i, "left"@) == Some(left),
        t.kind(left) == "identifier"@,
        long_enough(t.text(left)),
    ensures
        refers(
            facts_of(t, file, found, on_self, on_receiver),
            t,
            left,
            t.text(left),
            RefRole::Write,
        ),
{
    let x = reference_at(t, file, left, t.text(left), RefRole::Write);
    assert(write_of(t, file, i)[0] == x);
    writes_reported(t, file, found, on_self, on_receiver, i, x);
}

/// An identifier is read unless it is called, assigned to, the name of
/// something, a field that is accessed, a part of a scoped name, or a parameter
/// of a lambda expression.
pub proof fn values_are_read(
    t: Syntax,
    file: Seq<char>,
    found: Seq<Seq<CaptureView>>,
    on_self: Seq<Seq<CaptureView>>,
    on_receiver: Seq<Seq<CaptureView>>,
    i: int,
    p: int,
)
    requires
        t.nested(),
        0 <= i < t.after(0),
        t.kind(i) == "identifier"@,
        long_enough(t.text(i)),
        t.parent(i) == Some(p),
        !t.in_field(i, "name"@),
        !(t.in_field(i, "field"@) && t.kind(p) == "field_access"@),
        !(t.in_field(i, "parameters"@) && t.kind(p) == "lambda_expression"@),
        !(t.in_field(i, "left"@) && (t.kind(p) == "assignment_expression"@ || t.kind(p) == "operator_assignment"@)),
        t.kind(p) != "package_declaration"@,
        t.kind(p) != "import_declaration"@,
        t.kind(p) != "scoped_identifier"@,
        t.kind(p) != "scoped_type_identifier"@,
        t.kind(p) != "inferred_parameters"@,
        forall|j: int, k: int| t.has(j) && t.kind(j) == "identifier"@
            && j < k < #[trigger] t.after(j)
            ==> #[trigger] t.kind(k) != "identifier"@,
    ensures
        refers(facts_of(t, file, found, on_self, on_receiver), t, i, t.text(i), RefRole::Read),
{
    child_stands_in_field(t, p, "name"@);
    child_stands_in_field(t, p, "field"@);
    child_stands_in_field(t, p, "parameters"@);
    child_stands_in_field(t, p, "left"@);
    assert(!in_declared_name(t, i));
    let x = reference_at(t, file, i, t.text(i), RefRole::Read);
    assert(read_of(t, file, i)[0] == x);
    reads_reported(t, file, found, on_self, on_receiver, i, x);
}

/// Each parameter of a method, a constructor or a lambda expression with
/// declared parameters is bound in the innermost scope at its place, one of
/// variable number too. It has the type that it is declared with.
pub proof fn parameters_are_bound(
    t: Syntax,
    file: Seq<char>,
    found: Seq<Seq<CaptureView>>,
    on_self: Seq<Seq<CaptureView>>,
    on_receiver: Seq<Seq<CaptureView>>,
    i: int,
    list: int,
    p: int,
    v: int,
    n: int,
)
    requires
        t.nested(),
        0 <= i < t.after(0),
        t.kind(i) == "method_declaration"@ || t.kind(i) == "constructor_declaration"@
            || t.kind(i) == "compact_constructor_declaration"@
            || (t.kind(i) == "lambda_expression"@ && t.kind(list) == "formal_parameters"@),
        t.child(i, "parameters"@) == Some(list),
        t.has_child(list, p),
        t.named(p),
        (t.kind(p) == "formal_parameter"@ && v == p)
            || (t.kind(p) == "spread_parameter"@ && t.has_child(p, v) && t.named(v) && t.kind(v) == "variable_declarator"@),
        t.child(v, "name"@) == Some(n),
        facts_of(t, file, found, on_self, on_receiver).scopes.len() <= usize::MAX,
    ensures
        binds(
            facts_of(t, file, found, on_self, on_receiver),
            t.text(n),
            t.start(n),
            BindingKind::Param,
        ),
        v == p && (t.child(p, "type"@) matches Some(ty))
            ==> binds_as(
                facts_of(t, file, found, on_self, on_receiver),
                t.text(n),
                t.start(n),
                BindingKind::Param,
                simple_name(t.text(t.child(p, "type"@)->0), "."@),
            ),
{
    introduced_kinds();
    lambda_params_kinds();
    param_at_kinds();
    let b = local_binding(
        facts_of(t, file, found, on_self, on_receiver).scopes,
        t.text(n),
        t.start(n),
        BindingKind::Param,
        if v == p { written_type(t, p) } else { None },
    );
    reached_is_behind(t, list + 1, t.after(list), p);
    if t.has_child(p, v) {
        reached_is_behind(t, p + 1, t.after(p), v);
    }
    if v != p {
        assert(seq![b][0] == b);
        spread_names_in_has(
            t,
            facts_of(t, file, found, on_self, on_receiver).scopes,
            p + 1,
            t.after(p),
            v,
            b,
        );
    } else {
        assert(param_at(t, facts_of(t, file, found, on_self, on_receiver).scopes, p)[0] == b);
    }
    params_in_has(
        t,
        facts_of(t, file, found, on_self, on_receiver).scopes,
        list + 1,
        t.after(list),
        p,
        b,
    );
    let scopes = facts_of(t, file, found, on_self, on_receiver).scopes;
    let x = local_binding(
        scopes,
        t.text(n),
        t.start(n),
        BindingKind::Param,
        if v == p { written_type(t, p) } else { None },
    );
    bindings_reported(t, file, found, on_self, on_receiver, i, x);
    local_is_bound(
        facts_of(t, file, found, on_self, on_receiver),
        t.text(n),
        t.start(n),
        BindingKind::Param,
        if v == p { written_type(t, p) } else { None },
    );
}

/// Each parameter of a lambda expression without types is bound in the
/// innermost scope at its place.
pub proof fn inferred_parameters_are_bound(
    t: Syntax,
    file: Seq<char>,
    found: Seq<Seq<CaptureView>>,
    on_self: Seq<Seq<CaptureView>>,
    on_receiver: Seq<Seq<CaptureView>>,
    i: int,
    list: int,
    n: int,
)
    requires
        t.nested(),
        0 <= i < t.after(0),
        t.kind(i) == "lambda_expression"@,
        t.child(i, "parameters"@) == Some(list),
        t.kind(n) == "identifier"@,
        n == list || (t.kind(list) == "inferred_parameters"@ && t.has_child(list, n) && t.named(n)),
        facts_of(t, file, found, on_self, on_receiver).scopes.len() <= usize::MAX,
    ensures
        binds(
            facts_of(t, file, found, on_self, on_receiver),
            t.text(n),
            t.start(n),
            BindingKind::Param,
        ),
{
    introduced_kinds();
    lambda_params_kinds();
    let b = local_binding(
        facts_of(t, file, found, on_self, on_receiver).scopes,
        t.text(n),
        t.start(n),
        BindingKind::Param,
        None,
    );
    assert(seq![b][0] == b);
    if n != list {
        inferred_in_has(
            t,
            facts_of(t, file, found, on_self, on_receiver).scopes,
            list + 1,
            t.after(list),
            n,
            b,
        );
    }
    let scopes = facts_of(t, file, found, on_self, on_receiver).scopes;
    let x = local_binding(scopes, t.text(n), t.start(n), BindingKind::Param, None);
    bindings_reported(t, file, found, on_self, on_receiver, i, x);
    local_is_bound(
        facts_of(t, file, found, on_self, on_receiver),
        t.text(n),
        t.start(n),
        BindingKind::Param,
        None,
    );
}

/// Each declarator of a variable inside a function is bound in the innermost
/// scope at its place. It has the type that it is declared with.
pub proof fn locals_are_bound(
    t: Syntax,
    file: Seq<char>,
    found: Seq<Seq<CaptureView>>,
    on_self: Seq<Seq<CaptureView>>,
    on_receiver: Seq<Seq<CaptureView>>,
    i: int,
    d: int,
    n: int,
)
    requires
        t.nested(),
        0 <= i < t.after(0),
        t.kind(i) == "local_variable_declaration"@,
        t.has_child(i, d),
        t.in_field(d, "declarator"@),
        t.child(d, "name"@) == Some(n),
        !outside_code(facts_of(t, file, found, on_self, on_receiver).scopes, t.start(n)),
        facts_of(t, file, found, on_self, on_receiver).scopes.len() <= usize::MAX,
    ensures
        binds(
            facts_of(t, file, found, on_self, on_receiver),
            t.text(n),
            t.start(n),
            BindingKind::Local,
        ),
        t.child(i, "type"@) matches Some(ty)
            ==> (t.kind(ty) == "scoped_type_identifier"@ || t.kind(ty) == "generic_type"@ || (t.kind(ty) == "type_identifier"@ && t.text(ty) != "var"@))
            ==> binds_as(
                facts_of(t, file, found, on_self, on_receiver),
                t.text(n),
                t.start(n),
                BindingKind::Local,
                simple_name(t.text(ty), "."@),
            ),
{
    introduced_kinds();
    local_type_kinds();
    if at_file_level(facts_of(t, file, found, on_self, on_receiver).scopes, t.start(n)) {
        file_level_is_outside(facts_of(t, file, found, on_self, on_receiver).scopes, t.start(n));
    }
    let b = local_binding(
        facts_of(t, file, found, on_self, on_receiver).scopes,
        t.text(n),
        t.start(n),
        BindingKind::Local,
        local_type(t, i, d),
    );
    assert(local_at(t, facts_of(t, file, found, on_self, on_receiver).scopes, i, d)[0] == b);
    locals_in_has(
        t,
        facts_of(t, file, found, on_self, on_receiver).scopes,
        i,
        i + 1,
        t.after(i),
        d,
        b,
    );
    let scopes = facts_of(t, file, found, on_self, on_receiver).scopes;
    let x = local_binding(scopes, t.text(n), t.start(n), BindingKind::Local, local_type(t, i, d));
    bindings_reported(t, file, found, on_self, on_receiver, i, x);
    local_is_bound(
        facts_of(t, file, found, on_self, on_receiver),
        t.text(n),
        t.start(n),
        BindingKind::Local,
        local_type(t, i, d),
    );
}

/// The variable of a loop over a collection inside a function is bound in the
/// innermost scope at its place.
pub proof fn loop_variables_are_bound(
    t: Syntax,
    file: Seq<char>,
    found: Seq<Seq<CaptureView>>,
    on_self: Seq<Seq<CaptureView>>,
    on_receiver: Seq<Seq<CaptureView>>,
    i: int,
    n: int,
)
    requires
        t.nested(),
        0 <= i < t.after(0),
        t.kind(i) == "enhanced_for_statement"@,
        t.child(i, "name"@) == Some(n),
        !outside_code(facts_of(t, file, found, on_self, on_receiver).scopes, t.start(n)),
        facts_of(t, file, found, on_self, on_receiver).scopes.len() <= usize::MAX,
    ensures
        binds(
            facts_of(t, file, found, on_self, on_receiver),
            t.text(n),
            t.start(n),
            BindingKind::Local,
        ),
{
    introduced_kinds();
    if at_file_level(facts_of(t, file, found, on_self, on_receiver).scopes, t.start(n)) {
        file_level_is_outside(facts_of(t, file, found, on_self, on_receiver).scopes, t.start(n));
    }
    let scopes = facts_of(t, file, found, on_self, on_receiver).scopes;
    let x = local_binding(scopes, t.text(n), t.start(n), BindingKind::Local, None);
    assert(introduced(t, scopes, i)[0] == x);
    bindings_reported(t, file, found, on_self, on_receiver, i, x);
    local_is_bound(
        facts_of(t, file, found, on_self, on_receiver),
        t.text(n),
        t.start(n),
        BindingKind::Local,
        None,
    );
}

/// The name of a caught exception is bound as a parameter in the innermost
/// scope at its place.
pub proof fn caught_exceptions_are_bound(
    t: Syntax,
    file: Seq<char>,
    found: Seq<Seq<CaptureView>>,
    on_self: Seq<Seq<CaptureView>>,
    on_receiver: Seq<Seq<CaptureView>>,
    i: int,
    n: int,
)
    requires
        t.nested(),
        0 <= i < t.after(0),
        t.kind(i) == "catch_formal_parameter"@,
        t.child(i, "name"@) == Some(n),
        facts_of(t, file, found, on_self, on_receiver).scopes.len() <= usize::MAX,
    ensures
        binds(
            facts_of(t, file, found, on_self, on_receiver),
            t.text(n),
            t.start(n),
            BindingKind::Param,
        ),
{
    introduced_kinds();
    let scopes = facts_of(t, file, found, on_self, on_receiver).scopes;
    let x = local_binding(scopes, t.text(n), t.start(n), BindingKind::Param, None);
    assert(introduced(t, scopes, i)[0] == x);
    bindings_reported(t, file, found, on_self, on_receiver, i, x);
    local_is_bound(
        facts_of(t, file, found, on_self, on_receiver),
        t.text(n),
        t.start(n),
        BindingKind::Param,
        None,
    );
}

// ── Scopes ───────────────────────────────────────────────────────────────────

/// Whether a node opens a scope for what stands in it.
pub open spec fn is_holder(t: Syntax, k: int) -> bool {
    ||| t.kind(k) == "class_declaration"@
    ||| t.kind(k) == "interface_declaration"@
    ||| t.kind(k) == "enum_declaration"@
    ||| t.kind(k) == "record_declaration"@
    ||| t.kind(k) == "annotation_type_declaration"@
    ||| t.kind(k) == "method_declaration"@
    ||| t.kind(k) == "constructor_declaration"@
    ||| t.kind(k) == "compact_constructor_declaration"@
    ||| t.kind(k) == "lambda_expression"@
}

/// The kind of the scope that a node opens.
pub open spec fn scope_kind(t: Syntax, k: int) -> ScopeKind {
    if t.kind(k) == "class_declaration"@ || t.kind(k) == "interface_declaration"@
        || t.kind(k) == "enum_declaration"@ || t.kind(k) == "record_declaration"@
        || t.kind(k) == "annotation_type_declaration"@ {
        ScopeKind::Type
    } else if t.kind(k) == "method_declaration"@ || t.kind(k) == "constructor_declaration"@
        || t.kind(k) == "compact_constructor_declaration"@ || t.kind(k) == "lambda_expression"@ {
        ScopeKind::Function
    } else {
        ScopeKind::Block
    }
}

/// Whether a node is the body of a holder.
pub open spec fn is_held(t: Syntax, k: int) -> bool {
    exists|p: int| #![trigger t.child(p, "body"@)] 0 <= p < k && is_holder(t, p)
        && t.child(p, "body"@) == Some(k)
        && (t.kind(p) != "lambda_expression"@ || t.kind(k) == "block"@)
}

/// Whether a node opens a scope of its own: a holder, or a block that is not the
/// body of one.
pub open spec fn opens(t: Syntax, k: int) -> bool {
    (is_holder(t, k) || t.kind(k) == "block"@) && !is_held(t, k)
}

/// Whether node `j` stands in the body of the holder `k`.
pub open spec fn is_inside(t: Syntax, k: int, j: int) -> bool {
    t.child(k, "body"@) matches Some(b) && j < t.after(b)
        && (b < j || (b == j && t.kind(k) == "lambda_expression"@ && t.kind(b) != "block"@))
}

/// Whether `outer` is the innermost node from `from` on that opens a scope around
/// node `j`.
pub open spec fn is_nearest(t: Syntax, from: int, j: int, outer: Option<int>) -> bool {
    match outer {
        Some(a) => from <= a < j && j < t.after(a) && opens(t, a) && forall|k: int| a < k < j
            && j < #[trigger] t.after(k)
            ==> !opens(t, k),
        None => forall|k: int| from <= k < j && j < #[trigger] t.after(k) ==> !opens(t, k),
    }
}

proof fn scopes_are_kept(t: Syntax, i: int, parent: ScopeId, scopes: Seq<Scope>)
    ensures
        extends(scopes_with(t, i, parent, scopes), scopes),
        t.has(i) && (is_holder(t, i) || t.kind(i) == "block"@)
            ==> extends(
                scopes_with(t, i, parent, scopes),
                scopes.push(
                    Scope { parent: Some(parent), span: span_at(t, i), kind: scope_kind(t, i) },
                ),
            ),
    decreases t.left(i), 0nat,
{
    if t.has(i) {
        scopes_with_kinds();
        let opened = scopes.push(
            Scope { parent: Some(parent), span: span_at(t, i), kind: scope_kind(t, i) },
        );
        let id = scopes.len() as usize;
        if is_holder(t, i) {
            if let Some(body) = t.child(i, "body"@) {
                if t.kind(i) == "lambda_expression"@ && t.kind(body) != "block"@ {
                    scopes_are_kept(t, body, id, opened);
                } else {
                    scopes_are_kept_in(t, body + 1, t.after(body), id, opened);
                }
            }
        } else if t.kind(i) == "block"@ {
            scopes_are_kept_in(t, i + 1, t.after(i), id, opened);
        } else {
            scopes_are_kept_in(t, i + 1, t.after(i), parent, scopes);
        }
    }
}

proof fn scopes_are_kept_in(t: Syntax, lo: int, hi: int, parent: ScopeId, scopes: Seq<Scope>)
    ensures
        extends(scopes_with_all(t, lo, hi, parent, scopes), scopes),
    decreases t.left(lo), 1nat,
{
    if lo < hi && t.has(lo) {
        scopes_are_kept(t, lo, parent, scopes);
        scopes_are_kept_in(t, t.next(lo, hi), hi, parent, scopes_with(t, lo, parent, scopes));
    }
}

proof fn scope_is_opened(
    t: Syntax,
    i: int,
    parent: ScopeId,
    scopes: Seq<Scope>,
    j: int,
    outer: Option<int>,
)
    requires
        t.nested(),
        t.linked(),
        t.has(i),
        i <= j < t.after(i),
        forall|k: int| #[trigger] is_holder(t, k) ==> !is_held(t, k),
        opens(t, j),
        !is_held(t, i),
        forall|k: int| i <= k < j && j < #[trigger] t.after(k) && is_holder(t, k)
            ==> is_inside(t, k, j),
        is_nearest(t, i, j, outer),
        scopes_with(t, i, parent, scopes).len() <= usize::MAX,
    ensures
        opens_scope(
            scopes_with(t, i, parent, scopes),
            scopes.len() as int,
            t,
            j,
            scope_kind(t, j),
            parent,
            outer,
        ),
    decreases t.left(i), 0nat,
{
    scopes_with_kinds();
    let opened = scopes.push(
        Scope { parent: Some(parent), span: span_at(t, i), kind: scope_kind(t, i) },
    );
    let id = scopes.len() as usize;
    let after = scopes_with(t, i, parent, scopes);
    scopes_are_kept(t, i, parent, scopes);
    if i == j {
        assert(after[scopes.len() as int] == opened[scopes.len() as int]);
    } else {
        let inner = if outer == Some(i) { None } else { outer };
        if is_holder(t, i) {
            assert(opens(t, i));
            assert(after[id as int] == opened[id as int]);
            assert(is_inside(t, i, j));
            let b = t.child(i, "body"@)->0;
            field_is_child(t, i, "body"@);
            assert forall|k: int| i < k < j && j < #[trigger] t.after(k) implies k >= b by {
                if k < b {
                    earlier_ends_before(t, i + 1, t.after(i), b, k);
                }
            }
            if t.kind(i) == "lambda_expression"@ && t.kind(b) != "block"@ {
                if is_held(t, b) {
                    let p = choose|p: int| #![trigger t.child(p, "body"@)] 0 <= p < b
                        && is_holder(t, p) && t.child(p, "body"@) == Some(b)
                        && (t.kind(p) != "lambda_expression"@ || t.kind(b) == "block"@);
                    field_is_child(t, p, "body"@);
                    assert(t.parent(b) == Some(p));
                    assert(t.parent(b) == Some(i));
                }
                scope_is_opened(t, b, id, opened, j, inner);
            } else {
                assert(is_held(t, b));
            assert forall|c: int| #[trigger] t.reaches(b + 1, t.after(b), c) implies !is_held(t, c) by {
                assert(t.has_child(b, c));
                if is_held(t, c) {
                    let p = choose|p: int| #![trigger t.child(p, "body"@)] 0 <= p < c
                        && is_holder(t, p) && t.child(p, "body"@) == Some(c)
                        && (t.kind(p) != "lambda_expression"@ || t.kind(c) == "block"@);
                    field_is_child(t, p, "body"@);
                }
            }
                scope_is_opened_in(t, b + 1, t.after(b), id, opened, j, inner);
            }
            scope_is_within(after, t, i, j, scope_kind(t, j), id, parent, inner, outer);
        } else if t.kind(i) == "block"@ {
            assert(opens(t, i));
            assert(after[id as int] == opened[id as int]);
            assert forall|c: int| #[trigger] t.reaches(i + 1, t.after(i), c) implies !is_held(t, c) by {
                assert(t.has_child(i, c));
                if is_held(t, c) {
                    let p = choose|p: int| #![trigger t.child(p, "body"@)] 0 <= p < c
                        && is_holder(t, p) && t.child(p, "body"@) == Some(c)
                        && (t.kind(p) != "lambda_expression"@ || t.kind(c) == "block"@);
                    field_is_child(t, p, "body"@);
                }
            }
            scope_is_opened_in(t, i + 1, t.after(i), id, opened, j, inner);
            scope_is_within(after, t, i, j, scope_kind(t, j), id, parent, inner, outer);
        } else {
            assert(!opens(t, i));
            assert forall|c: int| #[trigger] t.reaches(i + 1, t.after(i), c) implies !is_held(t, c) by {
                assert(t.has_child(i, c));
                if is_held(t, c) {
                    let p = choose|p: int| #![trigger t.child(p, "body"@)] 0 <= p < c
                        && is_holder(t, p) && t.child(p, "body"@) == Some(c)
                        && (t.kind(p) != "lambda_expression"@ || t.kind(c) == "block"@);
                    field_is_child(t, p, "body"@);
                }
            }
            scope_is_opened_in(t, i + 1, t.after(i), parent, scopes, j, outer);
        }
    }
}

proof fn scope_is_opened_in(
    t: Syntax,
    lo: int,
    hi: int,
    parent: ScopeId,
    scopes: Seq<Scope>,
    j: int,
    outer: Option<int>,
)
    requires
        t.nested(),
        t.linked(),
        t.closed_range(lo, hi),
        lo <= j < hi,
        forall|k: int| #[trigger] is_holder(t, k) ==> !is_held(t, k),
        opens(t, j),
        forall|c: int| #[trigger] t.reaches(lo, hi, c) ==> !is_held(t, c),
        forall|k: int| lo <= k < j && j < #[trigger] t.after(k) && is_holder(t, k)
            ==> is_inside(t, k, j),
        is_nearest(t, lo, j, outer),
        scopes_with_all(t, lo, hi, parent, scopes).len() <= usize::MAX,
    ensures
        opens_scope(
            scopes_with_all(t, lo, hi, parent, scopes),
            scopes.len() as int,
            t,
            j,
            scope_kind(t, j),
            parent,
            outer,
        ),
    decreases t.left(lo), 1nat,
{
    let next = t.next(lo, hi);
    assert(t.reaches(lo, hi, lo));
    assert forall|c: int| #[trigger] t.reaches(next, hi, c) implies t.reaches(lo, hi, c) by {}
    let first = scopes_with(t, lo, parent, scopes);
    let all = scopes_with_all(t, lo, hi, parent, scopes);
    scopes_are_kept(t, lo, parent, scopes);
    scopes_are_kept_in(t, next, hi, parent, first);
    if j < t.after(lo) {
        scope_is_opened(t, lo, parent, scopes, j, outer);
        opens_scope_stays(
            first,
            all,
            scopes.len() as int,
            scopes.len() as int,
            t,
            j,
            scope_kind(t, j),
            parent,
            outer,
        );
    } else {
        nearest_is_later(t, lo, next, j, outer);
        scope_is_opened_in(t, next, hi, parent, first, j, outer);
        opens_scope_stays(
            all,
            all,
            first.len() as int,
            scopes.len() as int,
            t,
            j,
            scope_kind(t, j),
            parent,
            outer,
        );
    }
}

proof fn nearest_is_later(t: Syntax, lo: int, next: int, j: int, outer: Option<int>)
    requires
        t.nested(),
        0 <= lo < t.len(),
        next == t.after(lo),
        next <= j,
        is_nearest(t, lo, j, outer),
    ensures
        is_nearest(t, next, j, outer),
{
    if let Some(a) = outer {
        if a < next {
            assert(t.after(a) <= t.after(lo));
        }
    }
}

/// A type, a method, a constructor and a lambda expression open a scope of
/// their own, and so does each block that is not the body of one, where only
/// bodies lie around it. Its parent is the scope of the innermost of these
/// around it, or that of the file.
pub proof fn scopes_are_opened(
    t: Syntax,
    file: Seq<char>,
    found: Seq<Seq<CaptureView>>,
    on_self: Seq<Seq<CaptureView>>,
    on_receiver: Seq<Seq<CaptureView>>,
    j: int,
    outer: Option<int>,
)
    requires
        t.nested(),
        t.linked(),
        1 <= j < t.after(0),
        opens(t, j),
        forall|k: int| 1 <= k < j && j < #[trigger] t.after(k) && is_holder(t, k)
            ==> is_inside(t, k, j),
        forall|k: int| #[trigger] is_holder(t, k) ==> !is_held(t, k),
        !is_holder(t, 0),
        is_nearest(t, 1, j, outer),
        facts_of(t, file, found, on_self, on_receiver).scopes.len() <= usize::MAX,
    ensures
        opens_scope(
            facts_of(t, file, found, on_self, on_receiver).scopes,
            1,
            t,
            j,
            scope_kind(t, j),
            0,
            outer,
        ),
{
    let first = seq![module_scope(byte_count(t.source) as int)];
    assert forall|c: int| #[trigger] t.reaches(1, t.after(0), c) implies !is_held(t, c) by {
                assert(t.has_child(0, c));
                if is_held(t, c) {
                    let p = choose|p: int| #![trigger t.child(p, "body"@)] 0 <= p < c
                        && is_holder(t, p) && t.child(p, "body"@) == Some(c)
                        && (t.kind(p) != "lambda_expression"@ || t.kind(c) == "block"@);
                    field_is_child(t, p, "body"@);
                }
            }
    scope_is_opened_in(t, 1, t.after(0), 0, first, j, outer);
}

// ── Modules ──────────────────────────────────────────────────────────────────

/// The namespaces that the path of a file gives it.
spec fn path_namespaces(file: Seq<char>) -> Seq<Seq<char>> {
    let stem = without_suffix(file, ".java"@);
    segments(without_prefix(stem, "src/"@), '/')
}

proof fn path_gives_namespaces(root: Seq<char>, parts: Seq<Seq<char>>, ext: Seq<char>)
    requires
        parts.len() > 0,
        are_parts(parts, '/'),
        ext == ".java"@,
        root == "src/"@ || (root.len() == 0 && !has_prefix(join(parts, '/'), "src/"@)),
    ensures
        path_namespaces(root + join(parts, '/') + ext) == parts,
{
    reveal_strlit(".java");
    reveal_strlit("src/");
    let body = join(parts, '/');
    let stem = root + body;
    joined_comes_apart(parts, '/');
    own_suffix(stem, ext);
    prefix_comes_off(root, body);
    if root == "src/"@ {
    }
    if root.len() == 0 {
        assert(stem =~= body);
    }
}

/// The module of a Java file that declares no package has the pieces of the
/// path of the file as its names, without `src/` in front and without the
/// extension.
pub proof fn paths_name_modules(
    t: Syntax,
    file: Seq<char>,
    found: Seq<Seq<CaptureView>>,
    on_self: Seq<Seq<CaptureView>>,
    on_receiver: Seq<Seq<CaptureView>>,
    root: Seq<char>,
    parts: Seq<Seq<char>>,
    ext: Seq<char>,
)
    requires
        parts.len() > 0,
        are_parts(parts, '/'),
        ext == ".java"@,
        root == "src/"@ || (root.len() == 0 && !has_prefix(join(parts, '/'), "src/"@)),
        file == root + join(parts, '/') + ext,
        forall|e: int| #[trigger] t.reaches(1, t.after(0), e)
            ==> t.kind(e) != "package_declaration"@,
    ensures
        is_module(facts_of(t, file, found, on_self, on_receiver), parts),
{
    none_is_declared(t, 1, t.after(0));
    path_gives_namespaces(root, parts, ext);
}

proof fn none_is_declared(t: Syntax, lo: int, hi: int)
    requires
        forall|e: int| #[trigger] t.reaches(lo, hi, e) ==> t.kind(e) != "package_declaration"@,
    ensures
        declared_package(t, lo, hi) is None,
    decreases hi - lo,
{
    if lo < hi {
        assert(t.reaches(lo, hi, lo));
        assert forall|e: int| #[trigger] t.reaches(t.next(lo, hi), hi, e) implies t.kind(e) != "package_declaration"@ by {
            assert(t.reaches(lo, hi, e));
        }
        none_is_declared(t, t.next(lo, hi), hi);
    }
}

proof fn first_package(t: Syntax, lo: int, hi: int, p: int, name: Seq<char>)
    requires
        t.reaches(lo, hi, p),
        t.kind(p) == "package_declaration"@,
        package_name_in(t, p + 1, t.after(p)) == Some(name),
        forall|e: int| #[trigger] t.reaches(lo, hi, e) && e < p
            ==> t.kind(e) != "package_declaration"@,
    ensures
        declared_package(t, lo, hi) == Some(name),
    decreases hi - lo,
{
    if lo != p {
        reached_is_behind(t, t.next(lo, hi), hi, p);
        assert(t.reaches(lo, hi, lo));
        assert forall|e: int| #[trigger] t.reaches(t.next(lo, hi), hi, e) && e < p implies t.kind(e) != "package_declaration"@ by {
            assert(t.reaches(lo, hi, e));
        }
        first_package(t, t.next(lo, hi), hi, p, name);
    }
}

proof fn first_package_name(t: Syntax, lo: int, hi: int, n: int)
    requires
        t.reaches(lo, hi, n),
        t.kind(n) == "scoped_identifier"@ || t.kind(n) == "identifier"@,
        forall|e: int| #[trigger] t.reaches(lo, hi, e) && e < n
            ==> !(t.kind(e) == "scoped_identifier"@ || t.kind(e) == "identifier"@),
    ensures
        package_name_in(t, lo, hi) == Some(t.text(n)),
    decreases hi - lo,
{
    if lo != n {
        reached_is_behind(t, t.next(lo, hi), hi, n);
        assert(t.reaches(lo, hi, lo));
        assert forall|e: int| #[trigger] t.reaches(t.next(lo, hi), hi, e) && e < n implies !(t.kind(e) == "scoped_identifier"@ || t.kind(e) == "identifier"@) by {
            assert(t.reaches(lo, hi, e));
        }
        first_package_name(t, t.next(lo, hi), hi, n);
    }
}

/// The module of a Java file has the pieces of the package that the file
/// declares first as its names.
pub proof fn packages_name_modules(
    t: Syntax,
    file: Seq<char>,
    found: Seq<Seq<CaptureView>>,
    on_self: Seq<Seq<CaptureView>>,
    on_receiver: Seq<Seq<CaptureView>>,
    p: int,
    n: int,
    parts: Seq<Seq<char>>,
)
    requires
        parts.len() > 0,
        are_parts(parts, '.'),
        t.has_child(0, p),
        t.kind(p) == "package_declaration"@,
        forall|e: int| #[trigger] t.has_child(0, e) && e < p
            ==> t.kind(e) != "package_declaration"@,
        t.has_child(p, n),
        t.kind(n) == "scoped_identifier"@ || t.kind(n) == "identifier"@,
        forall|e: int| #[trigger] t.has_child(p, e) && e < n
            ==> !(t.kind(e) == "scoped_identifier"@ || t.kind(e) == "identifier"@),
        t.text(n) == join(parts, '.'),
    ensures
        is_module(facts_of(t, file, found, on_self, on_receiver), parts),
{
    joined_comes_apart(parts, '.');
    assert forall|e: int| #[trigger] t.reaches(p + 1, t.after(p), e) && e < n implies !(t.kind(e) == "scoped_identifier"@ || t.kind(e) == "identifier"@) by {
        assert(t.has_child(p, e));
    }
    first_package_name(t, p + 1, t.after(p), n);
    assert forall|e: int| #[trigger] t.reaches(1, t.after(0), e) && e < p implies t.kind(e) != "package_declaration"@ by {
        assert(t.has_child(0, e));
    }
    first_package(t, 1, t.after(0), p, t.text(n));
}

/// Each definition of a file stands in the module of the file where the file is
/// in a namespace: its identity extends that of the module.
pub proof fn definitions_stand_in_modules(
    t: Syntax,
    file: Seq<char>,
    found: Seq<Seq<CaptureView>>,
    on_self: Seq<Seq<CaptureView>>,
    on_receiver: Seq<Seq<CaptureView>>,
    k: int,
)
    requires
        0 <= k < facts_of(t, file, found, on_self, on_receiver).symbols.len() - 1,
        namespaces_of(t, file).len() > 0,
    ensures
        extends_module(facts_of(t, file, found, on_self, on_receiver), k),
{
    let c = context(t, file);
    let prefix = steps(t, file);
    let f = facts_of(t, file, found, on_self, on_receiver);
    definitions_belong(c, prefix, 1, t.after(0));
    let defs = symbols_in(c, prefix, 1, t.after(0));
    assert(f.symbols[k] == defs[k]);
    assert(f.symbols.last() == f.symbols[f.symbols.len() - 1]);
    assert(is_defined(c, prefix, defs[k]));
    assert(belongs(c, prefix, defs[k]));
}

// ── Nothing else is read or written ──────────────────────────────────────────

/// Whether the identifier `i` below `p` stands as a value: it is not called, assigned
/// to or introduced there.
pub open spec fn is_value_below(t: Syntax, p: int, i: int) -> bool {
    &&& t.kind(p) == "method_invocation"@ ==> !(t.child(p, "name"@) == Some(i))
    &&& t.kind(p) == "class_declaration"@ ==> !(t.child(p, "name"@) == Some(i))
    &&& t.kind(p) == "interface_declaration"@ ==> !(t.child(p, "name"@) == Some(i))
    &&& t.kind(p) == "enum_declaration"@ ==> !(t.child(p, "name"@) == Some(i))
    &&& t.kind(p) == "record_declaration"@ ==> !(t.child(p, "name"@) == Some(i))
    &&& t.kind(p) == "annotation_type_declaration"@ ==> !(t.child(p, "name"@) == Some(i))
    &&& t.kind(p) == "method_declaration"@ ==> !(t.child(p, "name"@) == Some(i))
    &&& t.kind(p) == "constructor_declaration"@ ==> !(t.child(p, "name"@) == Some(i))
    &&& t.kind(p) == "compact_constructor_declaration"@ ==> !(t.child(p, "name"@) == Some(i))
    &&& t.kind(p) == "variable_declarator"@ ==> !(t.child(p, "name"@) == Some(i))
    &&& t.kind(p) == "formal_parameter"@ ==> !(t.child(p, "name"@) == Some(i))
    &&& t.kind(p) == "catch_formal_parameter"@ ==> !(t.child(p, "name"@) == Some(i))
    &&& t.kind(p) == "enhanced_for_statement"@ ==> !(t.child(p, "name"@) == Some(i))
    &&& t.kind(p) == "package_declaration"@ ==> false
    &&& t.kind(p) == "import_declaration"@ ==> false
    &&& t.kind(p) == "inferred_parameters"@ ==> false
    &&& t.kind(p) == "field_access"@ ==> !(t.child(p, "field"@) == Some(i))
    &&& t.kind(p) == "lambda_expression"@ ==> !(t.child(p, "parameters"@) == Some(i))
    &&& t.kind(p) == "assignment_expression"@ ==> !(t.child(p, "left"@) == Some(i))
}

/// Each read of a file is of an identifier that is long enough and stands as a
/// value.
pub proof fn reads_are_values(t: Syntax, file: Seq<char>, k: int) -> (at: (int, int))
    requires
        t.nested(),
        t.has(0),
        identifiers_apart(t),
        0 <= k < reads_at(t, file, 0).len(),
    ensures
        0 <= at.1 < t.after(0),
        t.kind(at.1) == "identifier"@,
        long_enough(t.text(at.1)),
        t.parent(at.1) == Some(at.0),
        is_value_below(t, at.0, at.1),
        reads_at(t, file, 0)[k] == reference_at(t, file, at.1, t.text(at.1), RefRole::Read),
{
    reads_are_sound(t, file, k);
    let i = choose|i: int| 0 <= i < t.after(0) && #[trigger] is_read(t, i)
        && reads_at(t, file, 0)[k] == reference_at(t, file, i, t.text(i), RefRole::Read);
    let p = t.parent(i)->0;
    read_is_value(t, p, i);
    (p, i)
}

proof fn read_is_value(t: Syntax, p: int, i: int)
    requires
        t.parent(i) == Some(p),
        !not_read(t, i),
    ensures
        is_value_below(t, p, i),
{
    read_kinds();
}

#[verifier::rlimit(50)]
proof fn read_kinds()
    ensures
        "method_invocation"@ != "variable_declarator"@,
        "method_invocation"@ != "formal_parameter"@,
        "method_invocation"@ != "catch_formal_parameter"@,
        "method_invocation"@ != "enhanced_for_statement"@,
        "method_invocation"@ != "field_access"@,
        "method_invocation"@ != "lambda_expression"@,
        "method_invocation"@ != "inferred_parameters"@,
        "method_invocation"@ != "assignment_expression"@,
        "method_invocation"@ != "operator_assignment"@,
        "method_invocation"@ != "class_declaration"@,
        "method_invocation"@ != "interface_declaration"@,
        "method_invocation"@ != "enum_declaration"@,
        "method_invocation"@ != "record_declaration"@,
        "method_invocation"@ != "annotation_type_declaration"@,
        "method_invocation"@ != "method_declaration"@,
        "method_invocation"@ != "constructor_declaration"@,
        "method_invocation"@ != "compact_constructor_declaration"@,
        "class_declaration"@ != "variable_declarator"@,
        "class_declaration"@ != "formal_parameter"@,
        "class_declaration"@ != "catch_formal_parameter"@,
        "class_declaration"@ != "enhanced_for_statement"@,
        "class_declaration"@ != "field_access"@,
        "class_declaration"@ != "lambda_expression"@,
        "class_declaration"@ != "inferred_parameters"@,
        "class_declaration"@ != "assignment_expression"@,
        "class_declaration"@ != "operator_assignment"@,
        "class_declaration"@ != "interface_declaration"@,
        "class_declaration"@ != "enum_declaration"@,
        "class_declaration"@ != "record_declaration"@,
        "class_declaration"@ != "annotation_type_declaration"@,
        "class_declaration"@ != "method_declaration"@,
        "class_declaration"@ != "constructor_declaration"@,
        "class_declaration"@ != "compact_constructor_declaration"@,
        "interface_declaration"@ != "variable_declarator"@,
        "interface_declaration"@ != "formal_parameter"@,
        "interface_declaration"@ != "catch_formal_parameter"@,
        "interface_declaration"@ != "enhanced_for_statement"@,
        "interface_declaration"@ != "field_access"@,
        "interface_declaration"@ != "lambda_expression"@,
        "interface_declaration"@ != "inferred_parameters"@,
        "interface_declaration"@ != "assignment_expression"@,
        "interface_declaration"@ != "operator_assignment"@,
        "interface_declaration"@ != "enum_declaration"@,
        "interface_declaration"@ != "record_declaration"@,
        "interface_declaration"@ != "annotation_type_declaration"@,
        "interface_declaration"@ != "method_declaration"@,
        "interface_declaration"@ != "constructor_declaration"@,
        "interface_declaration"@ != "compact_constructor_declaration"@,
        "enum_declaration"@ != "variable_declarator"@,
        "enum_declaration"@ != "formal_parameter"@,
        "enum_declaration"@ != "catch_formal_parameter"@,
        "enum_declaration"@ != "enhanced_for_statement"@,
        "enum_declaration"@ != "field_access"@,
        "enum_declaration"@ != "lambda_expression"@,
        "enum_declaration"@ != "inferred_parameters"@,
        "enum_declaration"@ != "assignment_expression"@,
        "enum_declaration"@ != "operator_assignment"@,
        "enum_declaration"@ != "record_declaration"@,
        "enum_declaration"@ != "annotation_type_declaration"@,
        "enum_declaration"@ != "method_declaration"@,
        "enum_declaration"@ != "constructor_declaration"@,
        "enum_declaration"@ != "compact_constructor_declaration"@,
        "record_declaration"@ != "variable_declarator"@,
        "record_declaration"@ != "formal_parameter"@,
        "record_declaration"@ != "catch_formal_parameter"@,
        "record_declaration"@ != "enhanced_for_statement"@,
        "record_declaration"@ != "field_access"@,
        "record_declaration"@ != "lambda_expression"@,
        "record_declaration"@ != "inferred_parameters"@,
        "record_declaration"@ != "assignment_expression"@,
        "record_declaration"@ != "operator_assignment"@,
        "record_declaration"@ != "annotation_type_declaration"@,
        "record_declaration"@ != "method_declaration"@,
        "record_declaration"@ != "constructor_declaration"@,
        "record_declaration"@ != "compact_constructor_declaration"@,
        "annotation_type_declaration"@ != "variable_declarator"@,
        "annotation_type_declaration"@ != "formal_parameter"@,
        "annotation_type_declaration"@ != "catch_formal_parameter"@,
        "annotation_type_declaration"@ != "enhanced_for_statement"@,
        "annotation_type_declaration"@ != "field_access"@,
        "annotation_type_declaration"@ != "lambda_expression"@,
        "annotation_type_declaration"@ != "inferred_parameters"@,
        "annotation_type_declaration"@ != "assignment_expression"@,
        "annotation_type_declaration"@ != "operator_assignment"@,
        "annotation_type_declaration"@ != "method_declaration"@,
        "annotation_type_declaration"@ != "constructor_declaration"@,
        "annotation_type_declaration"@ != "compact_constructor_declaration"@,
        "method_declaration"@ != "variable_declarator"@,
        "method_declaration"@ != "formal_parameter"@,
        "method_declaration"@ != "catch_formal_parameter"@,
        "method_declaration"@ != "enhanced_for_statement"@,
        "method_declaration"@ != "field_access"@,
        "method_declaration"@ != "lambda_expression"@,
        "method_declaration"@ != "inferred_parameters"@,
        "method_declaration"@ != "assignment_expression"@,
        "method_declaration"@ != "operator_assignment"@,
        "method_declaration"@ != "constructor_declaration"@,
        "method_declaration"@ != "compact_constructor_declaration"@,
        "constructor_declaration"@ != "variable_declarator"@,
        "constructor_declaration"@ != "formal_parameter"@,
        "constructor_declaration"@ != "catch_formal_parameter"@,
        "constructor_declaration"@ != "enhanced_for_statement"@,
        "constructor_declaration"@ != "field_access"@,
        "constructor_declaration"@ != "lambda_expression"@,
        "constructor_declaration"@ != "inferred_parameters"@,
        "constructor_declaration"@ != "assignment_expression"@,
        "constructor_declaration"@ != "operator_assignment"@,
        "constructor_declaration"@ != "compact_constructor_declaration"@,
        "compact_constructor_declaration"@ != "variable_declarator"@,
        "compact_constructor_declaration"@ != "formal_parameter"@,
        "compact_constructor_declaration"@ != "catch_formal_parameter"@,
        "compact_constructor_declaration"@ != "enhanced_for_statement"@,
        "compact_constructor_declaration"@ != "field_access"@,
        "compact_constructor_declaration"@ != "lambda_expression"@,
        "compact_constructor_declaration"@ != "inferred_parameters"@,
        "compact_constructor_declaration"@ != "assignment_expression"@,
        "compact_constructor_declaration"@ != "operator_assignment"@,
        "variable_declarator"@ != "formal_parameter"@,
        "variable_declarator"@ != "catch_formal_parameter"@,
        "variable_declarator"@ != "enhanced_for_statement"@,
        "variable_declarator"@ != "field_access"@,
        "variable_declarator"@ != "lambda_expression"@,
        "variable_declarator"@ != "inferred_parameters"@,
        "variable_declarator"@ != "assignment_expression"@,
        "variable_declarator"@ != "operator_assignment"@,
        "formal_parameter"@ != "catch_formal_parameter"@,
        "formal_parameter"@ != "enhanced_for_statement"@,
        "formal_parameter"@ != "field_access"@,
        "formal_parameter"@ != "lambda_expression"@,
        "formal_parameter"@ != "inferred_parameters"@,
        "formal_parameter"@ != "assignment_expression"@,
        "formal_parameter"@ != "operator_assignment"@,
        "catch_formal_parameter"@ != "enhanced_for_statement"@,
        "catch_formal_parameter"@ != "field_access"@,
        "catch_formal_parameter"@ != "lambda_expression"@,
        "catch_formal_parameter"@ != "inferred_parameters"@,
        "catch_formal_parameter"@ != "assignment_expression"@,
        "catch_formal_parameter"@ != "operator_assignment"@,
        "enhanced_for_statement"@ != "field_access"@,
        "enhanced_for_statement"@ != "lambda_expression"@,
        "enhanced_for_statement"@ != "inferred_parameters"@,
        "enhanced_for_statement"@ != "assignment_expression"@,
        "enhanced_for_statement"@ != "operator_assignment"@,
        "package_declaration"@ != "method_invocation"@,
        "package_declaration"@ != "variable_declarator"@,
        "package_declaration"@ != "formal_parameter"@,
        "package_declaration"@ != "catch_formal_parameter"@,
        "package_declaration"@ != "enhanced_for_statement"@,
        "package_declaration"@ != "field_access"@,
        "package_declaration"@ != "lambda_expression"@,
        "package_declaration"@ != "inferred_parameters"@,
        "package_declaration"@ != "assignment_expression"@,
        "package_declaration"@ != "operator_assignment"@,
        "package_declaration"@ != "class_declaration"@,
        "package_declaration"@ != "interface_declaration"@,
        "package_declaration"@ != "enum_declaration"@,
        "package_declaration"@ != "record_declaration"@,
        "package_declaration"@ != "annotation_type_declaration"@,
        "package_declaration"@ != "method_declaration"@,
        "package_declaration"@ != "constructor_declaration"@,
        "package_declaration"@ != "compact_constructor_declaration"@,
        "import_declaration"@ != "method_invocation"@,
        "import_declaration"@ != "variable_declarator"@,
        "import_declaration"@ != "formal_parameter"@,
        "import_declaration"@ != "catch_formal_parameter"@,
        "import_declaration"@ != "enhanced_for_statement"@,
        "import_declaration"@ != "field_access"@,
        "import_declaration"@ != "lambda_expression"@,
        "import_declaration"@ != "inferred_parameters"@,
        "import_declaration"@ != "assignment_expression"@,
        "import_declaration"@ != "operator_assignment"@,
        "import_declaration"@ != "class_declaration"@,
        "import_declaration"@ != "interface_declaration"@,
        "import_declaration"@ != "enum_declaration"@,
        "import_declaration"@ != "record_declaration"@,
        "import_declaration"@ != "annotation_type_declaration"@,
        "import_declaration"@ != "method_declaration"@,
        "import_declaration"@ != "constructor_declaration"@,
        "import_declaration"@ != "compact_constructor_declaration"@,
        "inferred_parameters"@ != "field_access"@,
        "inferred_parameters"@ != "lambda_expression"@,
        "inferred_parameters"@ != "assignment_expression"@,
        "inferred_parameters"@ != "operator_assignment"@,
        "field_access"@ != "lambda_expression"@,
        "field_access"@ != "assignment_expression"@,
        "field_access"@ != "operator_assignment"@,
        "lambda_expression"@ != "assignment_expression"@,
        "lambda_expression"@ != "operator_assignment"@,
        "assignment_expression"@ != "operator_assignment"@,
{
    reveal_strlit("method_invocation");
    reveal_strlit("variable_declarator");
    reveal_strlit("formal_parameter");
    reveal_strlit("catch_formal_parameter");
    reveal_strlit("enhanced_for_statement");
    reveal_strlit("field_access");
    reveal_strlit("lambda_expression");
    reveal_strlit("inferred_parameters");
    reveal_strlit("assignment_expression");
    reveal_strlit("operator_assignment");
    reveal_strlit("class_declaration");
    reveal_strlit("interface_declaration");
    reveal_strlit("enum_declaration");
    reveal_strlit("record_declaration");
    reveal_strlit("annotation_type_declaration");
    reveal_strlit("method_declaration");
    reveal_strlit("constructor_declaration");
    reveal_strlit("compact_constructor_declaration");
    reveal_strlit("package_declaration");
    reveal_strlit("import_declaration");
    assert("method_invocation"@.len() == 17);
    assert("variable_declarator"@.len() == 19);
    assert("formal_parameter"@.len() == 16);
    assert("catch_formal_parameter"@.len() == 22);
    assert("enhanced_for_statement"@.len() == 22);
    assert("field_access"@.len() == 12);
    assert("lambda_expression"@.len() == 17);
    assert("inferred_parameters"@.len() == 19);
    assert("assignment_expression"@.len() == 21);
    assert("operator_assignment"@.len() == 19);
    assert("class_declaration"@.len() == 17);
    assert("interface_declaration"@.len() == 21);
    assert("enum_declaration"@.len() == 16);
    assert("record_declaration"@.len() == 18);
    assert("annotation_type_declaration"@.len() == 27);
    assert("method_declaration"@.len() == 18);
    assert("constructor_declaration"@.len() == 23);
    assert("compact_constructor_declaration"@.len() == 31);
    assert("package_declaration"@.len() == 19);
    assert("import_declaration"@.len() == 18);
    assert("method_invocation"@[0] != "lambda_expression"@[0]);
    assert("method_invocation"@[0] != "class_declaration"@[0]);
    assert("class_declaration"@[0] != "lambda_expression"@[0]);
    assert("interface_declaration"@[0] != "assignment_expression"@[0]);
    assert("enum_declaration"@[0] != "formal_parameter"@[0]);
    assert("record_declaration"@[0] != "method_declaration"@[0]);
    assert("variable_declarator"@[0] != "inferred_parameters"@[0]);
    assert("variable_declarator"@[0] != "operator_assignment"@[0]);
    assert("catch_formal_parameter"@[0] != "enhanced_for_statement"@[0]);
    assert("package_declaration"@[0] != "variable_declarator"@[0]);
    assert("package_declaration"@[0] != "inferred_parameters"@[0]);
    assert("package_declaration"@[0] != "operator_assignment"@[0]);
    assert("import_declaration"@[0] != "record_declaration"@[0]);
    assert("import_declaration"@[0] != "method_declaration"@[0]);
    assert("inferred_parameters"@[0] != "operator_assignment"@[0]);
}

/// Whether node `n` is an identifier that is long enough and that node `i` assigns to.
pub open spec fn is_assigned(t: Syntax, i: int, n: int) -> bool {
    t.kind(n) == "identifier"@ && long_enough(t.text(n))
        && (t.kind(i) == "assignment_expression"@ || t.kind(i) == "operator_assignment"@)
        && t.child(i, "left"@) == Some(n)
}

/// Each write of a file is of an identifier that is long enough and that an
/// assignment assigns to.
pub proof fn writes_are_targets(t: Syntax, file: Seq<char>, k: int) -> (at: (int, int))
    requires
        t.nested(),
        t.has(0),
        0 <= k < writes_at(t, file, 0).len(),
    ensures
        0 <= at.0 < t.after(0),
        is_assigned(t, at.0, at.1),
        writes_at(t, file, 0)[k] == reference_at(t, file, at.1, t.text(at.1), RefRole::Write),
{
    let items = writes_of_nodes(t, file);
    let is_one = |r: ReferenceView| exists|i: int, n: int| 0 <= i < t.after(0)
        && #[trigger] is_assigned(t, i, n)
        && r == reference_at(t, file, n, t.text(n), RefRole::Write);
    writes_in_document_order(t, file, 0);
    assert forall|i: int, e: int| 0 <= i < t.after(0) && 0 <= e < items(i).len() implies is_one(#[trigger] items(i)[e]) by {
        assert(is_assigned(t, i, t.child(i, "left"@)->0));
    }
    in_order_all(items, 0, t.after(0), is_one);
    assert(is_one(writes_at(t, file, 0)[k]));
    choose|i: int, n: int| 0 <= i < t.after(0) && #[trigger] is_assigned(t, i, n)
        && writes_at(t, file, 0)[k] == reference_at(t, file, n, t.text(n), RefRole::Write)
}

// ── Nothing else is defined ──────────────────────────────────────────────────

/// Whether node `i` is of a kind that declares symbols of the kind `kind`.
pub open spec fn declares(t: Syntax, i: int, kind: SymbolKind) -> bool {
    match kind {
        SymbolKind::Class => t.kind(i) == "class_declaration"@
            || t.kind(i) == "record_declaration"@,
        SymbolKind::Interface => t.kind(i) == "interface_declaration"@
            || t.kind(i) == "annotation_type_declaration"@,
        SymbolKind::Enum => t.kind(i) == "enum_declaration"@,
        SymbolKind::Method => t.kind(i) == "method_declaration"@
            || t.kind(i) == "constructor_declaration"@
            || t.kind(i) == "compact_constructor_declaration"@
            || t.kind(i) == "annotation_type_element_declaration"@,
        SymbolKind::Static => t.kind(i) == "field_declaration"@
            || t.kind(i) == "constant_declaration"@,
        _ => false,
    }
}

/// The characters at which the signature of a symbol of the kind `kind` at node
/// `i` ends.
pub open spec fn stops_at(t: Syntax, i: int, kind: SymbolKind) -> Seq<char> {
    "{;"@
}

/// Whether a symbol stands at a node that declares symbols of its kind, and has the
/// words of the node up to where it stops for a signature.
pub open spec fn is_declared_by(c: Ctx, s: SymbolView) -> bool {
    exists|i: int| #![trigger occurrence_at(c.tree, c.file, i)] s.occ == occurrence_at(
        c.tree,
        c.file,
        i,
    )
        && s.span == span_at(c.tree, i) && declares(c.tree, i, s.kind)
        && s.signature == one_line(c.tree.text(i), stops_at(c.tree, i, s.kind))
}

/// Whether all symbols do.
pub open spec fn all_declared(c: Ctx, symbols: Seq<SymbolView>) -> bool {
    forall|k: int| 0 <= k < symbols.len() ==> is_declared_by(c, #[trigger] symbols[k])
}

proof fn fields_in_declared(
    c: Ctx,
    prefix: Seq<DescriptorView>,
    implicit: bool,
    owner: int,
    lo: int,
    hi: int,
)
    requires
        declares(c.tree, owner, SymbolKind::Static),
    ensures
        all_declared(c, fields_in(c, prefix, implicit, owner, lo, hi)),
    decreases hi - lo,
{
    if lo < hi {
        fields_in_declared(c, prefix, implicit, owner, c.tree.next(lo, hi), hi);
    }
}

proof fn members_in_declared(c: Ctx, prefix: Seq<DescriptorView>, implicit: bool, lo: int, hi: int)
    ensures
        all_declared(c, members_in(c, prefix, implicit, lo, hi)),
    decreases c.tree.left(lo),
{
    let t = c.tree;
    if lo < hi && t.has(lo) {
        if t.kind(lo) == "enum_body_declarations"@ {
            members_in_declared(c, prefix, implicit, lo + 1, t.after(lo));
        } else if !(is_method(t, lo)) {
            if t.kind(lo) == "field_declaration"@ || t.kind(lo) == "constant_declaration"@ {
                fields_in_declared(c, prefix, implicit, lo, lo + 1, t.after(lo));
            }
        }
        members_in_declared(c, prefix, implicit, t.next(lo, hi), hi);
    }
}

proof fn type_symbols_declared(c: Ctx, prefix: Seq<DescriptorView>, i: int)
    ensures
        all_declared(c, type_symbols(c, prefix, i)),
{
    let t = c.tree;
    match (type_kind(t, i), t.field_text(i, "name"@)) {
        (Some(kind), Some(name)) => {
            if let Some(body) = t.child(i, "body"@) {
                members_in_declared(
                    c,
                    prefix + seq![DescriptorView::Type(name)],
                    kind == SymbolKind::Interface,
                    body + 1,
                    t.after(body),
                );
            }
        },
        _ => {},
    }
}

proof fn definitions_declared(c: Ctx, prefix: Seq<DescriptorView>, lo: int, hi: int)
    ensures
        all_declared(c, symbols_in(c, prefix, lo, hi)),
    decreases hi - lo,
{
    if lo < hi {
        type_symbols_declared(c, prefix, lo);
        definitions_declared(c, prefix, c.tree.next(lo, hi), hi);
    }
}

/// Each definition of a file, but for that of its module, stands at a node that
/// declares symbols of its kind. Its signature is the text of the node on one
/// line, up to where it stops.
pub proof fn definitions_stand_at_declarations(
    t: Syntax,
    file: Seq<char>,
    found: Seq<Seq<CaptureView>>,
    on_self: Seq<Seq<CaptureView>>,
    on_receiver: Seq<Seq<CaptureView>>,
    k: int,
) -> (i: int)
    requires
        0 <= k < facts_of(t, file, found, on_self, on_receiver).symbols.len() - 1,
    ensures
        declares(t, i, facts_of(t, file, found, on_self, on_receiver).symbols[k].kind),
        is_at(facts_of(t, file, found, on_self, on_receiver).symbols[k].occ, file, t, i),
        facts_of(t, file, found, on_self, on_receiver).symbols[k].span.start == t.start(i) as usize,
        facts_of(t, file, found, on_self, on_receiver).symbols[k].span.end == t.end(i) as usize,
        facts_of(t, file, found, on_self, on_receiver).symbols[k].signature == one_line(
            t.text(i),
            stops_at(t, i, facts_of(t, file, found, on_self, on_receiver).symbols[k].kind),
        ),
{
    let c = context(t, file);
    let prefix = steps(t, file);
    let f = facts_of(t, file, found, on_self, on_receiver);
    definitions_declared(c, prefix, 1, t.after(0));
    let defs = symbols_in(c, prefix, 1, t.after(0));
    assert(f.symbols[k] == defs[k]);
    assert(is_declared_by(c, defs[k]));
    choose|i: int| #![trigger occurrence_at(t, file, i)] defs[k].occ == occurrence_at(t, file, i)
        && defs[k].span == span_at(t, i) && declares(t, i, defs[k].kind)
        && defs[k].signature == one_line(t.text(i), stops_at(t, i, defs[k].kind))
}

// ── No other type is referred to ─────────────────────────────────────────────

/// Whether node `i` names a type, by the name `name`.
pub open spec fn names_type(t: Syntax, i: int, name: Seq<char>) -> bool {
    t.kind(i) == "type_identifier"@ && name == t.text(i)
}

/// Whether a reference is to a type that a node names, and says where it stands.
pub open spec fn is_of_type(t: Syntax, file: Seq<char>, r: ReferenceView) -> bool {
    &&& r.role == RefRole::TypeRef
    &&& r.type_ref_ctx is Some
    &&& exists|i: int| #![trigger occurrence_at(t, file, i)] r.occ == occurrence_at(t, file, i)
        && names_type(t, i, r.name)
}

/// Whether all references are.
pub open spec fn all_of_types(t: Syntax, file: Seq<char>, references: Seq<ReferenceView>) -> bool {
    forall|k: int| 0 <= k < references.len() ==> is_of_type(t, file, #[trigger] references[k])
}

proof fn last_name_is_name(t: Syntax, lo: int, hi: int, found: Option<int>)
    requires
        found matches Some(n) ==> t.kind(n) == "type_identifier"@,
    ensures
        last_name_in(t, lo, hi, found) matches Some(n) ==> t.kind(n) == "type_identifier"@,
    decreases hi - lo,
{
    if lo < hi {
        last_name_is_name(
            t,
            t.next(lo, hi),
            hi,
            if t.kind(lo) == "type_identifier"@ { Some(lo) } else { found },
        );
    }
}

proof fn leaves_at_typed(t: Syntax, file: Seq<char>, ctx: TypeRefContext, i: int)
    ensures
        all_of_types(t, file, leaves_at(t, file, ctx, i)),
    decreases t.left(i), 0nat,
{
    last_name_is_name(t, i + 1, t.after(i), None);
    let kind = t.kind(i);
    if t.has(i) && kind != "type_identifier"@ {
        if kind == "generic_type"@ {
            if let Some(base) = t.named_child(i) {
                leaves_at_typed(t, file, ctx, base);
            }
            if let Some(args) = t.child_of_kind(i, "type_arguments"@) {
                args_in_typed(t, file, args + 1, t.after(args));
            }
        } else if kind != "scoped_type_identifier"@ && kind == "array_type"@ {
            if let Some(element) = t.child(i, "element"@) {
                leaves_at_typed(t, file, ctx, element);
            }
        }
    }
}

proof fn args_in_typed(t: Syntax, file: Seq<char>, lo: int, hi: int)
    ensures
        all_of_types(t, file, args_in(t, file, lo, hi)),
    decreases t.left(lo), 2nat,
{
    if lo < hi && t.has(lo) {
        if t.named(lo) {
            if t.kind(lo) == "wildcard"@ {
                leaves_in_typed(t, file, TypeRefContext::GenericArg, lo + 1, t.after(lo));
            } else {
                leaves_at_typed(t, file, TypeRefContext::GenericArg, lo);
            }
        }
        args_in_typed(t, file, t.next(lo, hi), hi);
    }
}

proof fn leaves_in_typed(t: Syntax, file: Seq<char>, ctx: TypeRefContext, lo: int, hi: int)
    ensures
        all_of_types(t, file, leaves_in(t, file, ctx, lo, hi)),
    decreases t.left(lo), 1nat,
{
    if lo < hi && t.has(lo) {
        if t.named(lo) {
            leaves_at_typed(t, file, ctx, lo);
        }
        leaves_in_typed(t, file, ctx, t.next(lo, hi), hi);
    }
}

proof fn own_type_refs_typed(t: Syntax, file: Seq<char>, i: int)
    ensures
        all_of_types(t, file, own_type_refs(t, file, i)),
{
    if let Some((ty, ctx)) = reported_type(t, i) {
        leaves_at_typed(t, file, ctx, ty);
    }
}

proof fn type_refs_at_typed(t: Syntax, file: Seq<char>, i: int)
    ensures
        all_of_types(t, file, type_refs_at(t, file, i)),
    decreases t.left(i), 0nat,
{
    if t.has(i) {
        own_type_refs_typed(t, file, i);
        type_refs_in_typed(t, file, i + 1, t.after(i));
    }
}

proof fn type_refs_in_typed(t: Syntax, file: Seq<char>, lo: int, hi: int)
    ensures
        all_of_types(t, file, type_refs_in(t, file, lo, hi)),
    decreases t.left(lo), 1nat,
{
    if lo < hi && t.has(lo) {
        type_refs_at_typed(t, file, lo);
        type_refs_in_typed(t, file, t.next(lo, hi), hi);
    }
}

/// Each type reference of a file stands at a node that names a type.
pub proof fn type_references_name_types(t: Syntax, file: Seq<char>, k: int) -> (i: int)
    requires
        0 <= k < type_refs_at(t, file, 0).len(),
    ensures
        type_refs_at(t, file, 0)[k].role == RefRole::TypeRef,
        type_refs_at(t, file, 0)[k].type_ref_ctx is Some,
        is_at(type_refs_at(t, file, 0)[k].occ, file, t, i),
        names_type(t, i, type_refs_at(t, file, 0)[k].name),
{
    type_refs_at_typed(t, file, 0);
    let r = type_refs_at(t, file, 0)[k];
    assert(is_of_type(t, file, r));
    choose|i: int| #![trigger occurrence_at(t, file, i)] r.occ == occurrence_at(t, file, i)
        && names_type(t, i, r.name)
}

// ── All names and places ─────────────────────────────────────────────────────

/// The facts of a file name the file and its language.
pub proof fn facts_name_their_file(
    t: Syntax,
    file: Seq<char>,
    found: Seq<Seq<CaptureView>>,
    on_self: Seq<Seq<CaptureView>>,
    on_receiver: Seq<Seq<CaptureView>>,
)
    ensures
        facts_of(t, file, found, on_self, on_receiver).file == file,
        facts_of(t, file, found, on_self, on_receiver).lang == Language::Java.tag(),
{
}

/// Each reference has the last scope of the file that holds its place.
pub proof fn references_have_innermost_scopes(
    t: Syntax,
    file: Seq<char>,
    found: Seq<Seq<CaptureView>>,
    on_self: Seq<Seq<CaptureView>>,
    on_receiver: Seq<Seq<CaptureView>>,
    k: int,
)
    requires
        0 <= k < facts_of(t, file, found, on_self, on_receiver).references.len(),
        facts_of(t, file, found, on_self, on_receiver).scopes.len() <= usize::MAX,
    ensures
        is_scoped(
            facts_of(t, file, found, on_self, on_receiver).scopes,
            facts_of(t, file, found, on_self, on_receiver).references[k],
        ),
{
    place_is_scoped(
        facts_of(t, file, found, on_self, on_receiver).scopes,
        facts_of(t, file, found, on_self, on_receiver).references[k],
    );
}

/// Each definition of a file, but for that of its module, is bound in the scope
/// of the file as a whole.
pub proof fn definitions_are_bound(
    t: Syntax,
    file: Seq<char>,
    found: Seq<Seq<CaptureView>>,
    on_self: Seq<Seq<CaptureView>>,
    on_receiver: Seq<Seq<CaptureView>>,
    k: int,
)
    requires
        0 <= k < facts_of(t, file, found, on_self, on_receiver).symbols.len() - 1,
    ensures
        binds_definition(
            facts_of(t, file, found, on_self, on_receiver),
            facts_of(t, file, found, on_self, on_receiver).symbols[k],
        ),
{
    let f = facts_of(t, file, found, on_self, on_receiver);
    let locals = bindings_at(t, f.scopes, 0);
    let c = context(t, file);
    let prefix = steps(t, file);
    let defs = symbols_in(c, prefix, 1, t.after(0));
    let imported: Seq<BindingView> = imports_bound(f.scopes, f.references);
    assert(f.bindings =~= locals + definitions_bound(defs) + imported);
    assert(f.symbols[k] == defs[k]);
    definition_is_bound(f, locals, defs, imported, k);
}

/// Each import of a file is bound in the innermost scope at its place.
pub proof fn imports_are_bound(
    t: Syntax,
    file: Seq<char>,
    found: Seq<Seq<CaptureView>>,
    on_self: Seq<Seq<CaptureView>>,
    on_receiver: Seq<Seq<CaptureView>>,
    k: int,
)
    requires
        0 <= k < facts_of(t, file, found, on_self, on_receiver).references.len(),
        facts_of(t, file, found, on_self, on_receiver).references[k].role == RefRole::Import,
        facts_of(t, file, found, on_self, on_receiver).scopes.len() <= usize::MAX,
    ensures
        binds_import(
            facts_of(t, file, found, on_self, on_receiver),
            facts_of(t, file, found, on_self, on_receiver).references[k],
        ),
{
    let f = facts_of(t, file, found, on_self, on_receiver);
    let locals = bindings_at(t, f.scopes, 0);
    let c = context(t, file);
    let prefix = steps(t, file);
    let defs = symbols_in(c, prefix, 1, t.after(0));
    imported_is_bound(f, locals, defs, k);
}

/// Each name that a file binds is that of a definition or of an import of the
/// file, or is bound to itself in the innermost scope at its place.
pub proof fn bindings_have_origins(
    t: Syntax,
    file: Seq<char>,
    found: Seq<Seq<CaptureView>>,
    on_self: Seq<Seq<CaptureView>>,
    on_receiver: Seq<Seq<CaptureView>>,
    k: int,
)
    requires
        0 <= k < facts_of(t, file, found, on_self, on_receiver).bindings.len(),
        facts_of(t, file, found, on_self, on_receiver).scopes.len() <= usize::MAX,
    ensures
        has_origin(
            facts_of(t, file, found, on_self, on_receiver),
            facts_of(t, file, found, on_self, on_receiver).bindings[k],
        ),
{
    let f = facts_of(t, file, found, on_self, on_receiver);
    let locals = bindings_at(t, f.scopes, 0);
    let c = context(t, file);
    let prefix = steps(t, file);
    let defs = symbols_in(c, prefix, 1, t.after(0));
    let imported: Seq<BindingView> = imports_bound(f.scopes, f.references);
    assert(f.bindings =~= locals + definitions_bound(defs) + imported);
    locals_are_nested(t, f.scopes, 0);
    bound_has_origin(f, locals, defs, imported, k);
}

// ── Local names are written in the file ──────────────────────────────────────

/// Whether a name is the text of a node at its place.
pub open spec fn is_written(t: Syntax, b: BindingView) -> bool {
    exists|n: int| #![trigger t.text(n)] b.name == t.text(n) && b.intro == t.start(n)
}

/// Whether all names are.
pub open spec fn all_written(t: Syntax, bindings: Seq<BindingView>) -> bool {
    forall|k: int| 0 <= k < bindings.len() ==> is_written(t, #[trigger] bindings[k])
}

proof fn locals_in_written(t: Syntax, scopes: Seq<Scope>, owner: int, lo: int, hi: int)
    ensures
        all_written(t, locals_in(t, scopes, owner, lo, hi)),
    decreases hi - lo,
{
    if lo < hi {
        locals_in_written(t, scopes, owner, t.next(lo, hi), hi);
    }
}

proof fn spread_names_in_written(t: Syntax, scopes: Seq<Scope>, lo: int, hi: int)
    ensures
        all_written(t, spread_names_in(t, scopes, lo, hi)),
    decreases hi - lo,
{
    if lo < hi {
        spread_names_in_written(t, scopes, t.next(lo, hi), hi);
    }
}

proof fn param_at_written(t: Syntax, scopes: Seq<Scope>, i: int)
    ensures
        all_written(t, param_at(t, scopes, i)),
{
    if t.named(i) && t.kind(i) != "formal_parameter"@ && t.kind(i) == "spread_parameter"@ {
        spread_names_in_written(t, scopes, i + 1, t.after(i));
    }
}

proof fn params_in_written(t: Syntax, scopes: Seq<Scope>, lo: int, hi: int)
    ensures
        all_written(t, params_in(t, scopes, lo, hi)),
    decreases hi - lo,
{
    if lo < hi {
        param_at_written(t, scopes, lo);
        params_in_written(t, scopes, t.next(lo, hi), hi);
    }
}

proof fn inferred_in_written(t: Syntax, scopes: Seq<Scope>, lo: int, hi: int)
    ensures
        all_written(t, inferred_in(t, scopes, lo, hi)),
    decreases hi - lo,
{
    if lo < hi {
        inferred_in_written(t, scopes, t.next(lo, hi), hi);
    }
}

proof fn lambda_params_written(t: Syntax, scopes: Seq<Scope>, p: int)
    ensures
        all_written(t, lambda_params(t, scopes, p)),
{
    if t.kind(p) == "formal_parameters"@ {
        params_in_written(t, scopes, p + 1, t.after(p));
    } else if t.kind(p) == "inferred_parameters"@ {
        inferred_in_written(t, scopes, p + 1, t.after(p));
    }
}

proof fn introduced_written(t: Syntax, scopes: Seq<Scope>, i: int)
    ensures
        all_written(t, introduced(t, scopes, i)),
{
    let kind = t.kind(i);
    if kind == "method_declaration"@ || kind == "constructor_declaration"@
        || kind == "compact_constructor_declaration"@ {
        if let Some(params) = t.child(i, "parameters"@) {
            params_in_written(t, scopes, params + 1, t.after(params));
        }
    } else if kind == "lambda_expression"@ {
        if let Some(params) = t.child(i, "parameters"@) {
            lambda_params_written(t, scopes, params);
        }
    } else if kind == "local_variable_declaration"@ {
        locals_in_written(t, scopes, i, i + 1, t.after(i));
    }
}

proof fn bindings_at_written(t: Syntax, scopes: Seq<Scope>, i: int)
    ensures
        all_written(t, bindings_at(t, scopes, i)),
    decreases t.left(i), 0nat,
{
    if t.has(i) {
        introduced_written(t, scopes, i);
        bindings_in_written(t, scopes, i + 1, t.after(i));
    }
}

proof fn bindings_in_written(t: Syntax, scopes: Seq<Scope>, lo: int, hi: int)
    ensures
        all_written(t, bindings_in(t, scopes, lo, hi)),
    decreases t.left(lo), 1nat,
{
    if lo < hi && t.has(lo) {
        bindings_at_written(t, scopes, lo);
        bindings_in_written(t, scopes, t.next(lo, hi), hi);
    }
}

/// Each local name of a file is the text of a node at its place.
pub proof fn locals_are_written(t: Syntax, scopes: Seq<Scope>, k: int) -> (n: int)
    requires
        0 <= k < bindings_at(t, scopes, 0).len(),
    ensures
        bindings_at(t, scopes, 0)[k].name == t.text(n),
        bindings_at(t, scopes, 0)[k].intro == t.start(n),
{
    bindings_at_written(t, scopes, 0);
    let b = bindings_at(t, scopes, 0)[k];
    assert(is_written(t, b));
    choose|n: int| #![trigger t.text(n)] b.name == t.text(n) && b.intro == t.start(n)
}

// ── Calls ────────────────────────────────────────────────────────────────────

/// Each match with a callee that is long enough and a qualifier is a call with
/// that qualifier, unless it is one on the object itself.
pub proof fn calls_are_reported(
    t: Syntax,
    file: Seq<char>,
    found: Seq<Seq<CaptureView>>,
    on_self: Seq<Seq<CaptureView>>,
    on_receiver: Seq<Seq<CaptureView>>,
    k: int,
    c: CaptureView,
    q: CaptureView,
)
    requires
        0 <= k < found.len(),
        captures(found[k], "callee"@, c),
        long_enough(text_between(t.source, c.start, c.end)),
        captures(found[k], "qualifier"@, q),
        !calls_at(on_self, c.start),
    ensures
        calls_name(
            facts_of(t, file, found, on_self, on_receiver),
            c,
            text_between(t.source, c.start, c.end),
            Some(text_between(t.source, q.start, q.end)),
            false,
        ),
{
    call_is_found(t.source, file, found, k, c);
    let plain = plain_call(t.source, file, found[k]);
    mark_is_found(on_self, c.start);
    qualified_call_is_found(t.source, file, found, on_self, on_receiver, plain);
    let r = receiver_marked(t.source, on_receiver, self_marked(on_self, plain));
    in_either(
        calls_qualified(t.source, file, found, on_self, on_receiver),
        inherits_at(t, file, 0),
        r,
    );
    in_either(
        calls_qualified(t.source, file, found, on_self, on_receiver) + inherits_at(t, file, 0),
        imports_at(t, file, own_module(t, file), 0),
        r,
    );
    in_either(
        calls_qualified(t.source, file, found, on_self, on_receiver) + inherits_at(t, file, 0)
            + imports_at(t, file, own_module(t, file), 0),
        all_natives_in(t, file, package_parts(t), 1, t.after(0)),
        r,
    );
    in_either(
        calls_qualified(t.source, file, found, on_self, on_receiver) + inherits_at(t, file, 0)
            + imports_at(t, file, own_module(t, file), 0)
            + all_natives_in(t, file, package_parts(t), 1, t.after(0)),
        type_refs_at(t, file, 0),
        r,
    );
    in_either(
        calls_qualified(t.source, file, found, on_self, on_receiver) + inherits_at(t, file, 0)
            + imports_at(t, file, own_module(t, file), 0)
            + all_natives_in(t, file, package_parts(t), 1, t.after(0)) + type_refs_at(t, file, 0),
        reads_at(t, file, 0),
        r,
    );
    in_either(
        calls_qualified(t.source, file, found, on_self, on_receiver) + inherits_at(t, file, 0)
            + imports_at(t, file, own_module(t, file), 0)
            + all_natives_in(t, file, package_parts(t), 1, t.after(0)) + type_refs_at(t, file, 0)
            + reads_at(t, file, 0),
        writes_at(t, file, 0),
        r,
    );
    is_reported(
        facts_of(t, file, found, on_self, on_receiver),
        references_of(t, file, own_module(t, file), found, on_self, on_receiver),
        r,
    );
}

/// Each match with a callee that is long enough and without a qualifier is a
/// call without one, unless another query gives it a receiver.
pub proof fn plain_calls_are_reported(
    t: Syntax,
    file: Seq<char>,
    found: Seq<Seq<CaptureView>>,
    on_self: Seq<Seq<CaptureView>>,
    on_receiver: Seq<Seq<CaptureView>>,
    k: int,
    c: CaptureView,
)
    requires
        0 <= k < found.len(),
        captures(found[k], "callee"@, c),
        long_enough(text_between(t.source, c.start, c.end)),
        lacks(found[k], "qualifier"@),
        !calls_at(on_self, c.start),
        !calls_at(on_receiver, c.start),
    ensures
        calls_name(
            facts_of(t, file, found, on_self, on_receiver),
            c,
            text_between(t.source, c.start, c.end),
            None,
            false,
        ),
{
    call_is_found(t.source, file, found, k, c);
    let plain = plain_call(t.source, file, found[k]);
    mark_is_found(on_self, c.start);
    qualified_call_is_found(t.source, file, found, on_self, on_receiver, plain);
    mark_is_found(on_receiver, c.start);
    let r = receiver_marked(t.source, on_receiver, self_marked(on_self, plain));
    in_either(
        calls_qualified(t.source, file, found, on_self, on_receiver),
        inherits_at(t, file, 0),
        r,
    );
    in_either(
        calls_qualified(t.source, file, found, on_self, on_receiver) + inherits_at(t, file, 0),
        imports_at(t, file, own_module(t, file), 0),
        r,
    );
    in_either(
        calls_qualified(t.source, file, found, on_self, on_receiver) + inherits_at(t, file, 0)
            + imports_at(t, file, own_module(t, file), 0),
        all_natives_in(t, file, package_parts(t), 1, t.after(0)),
        r,
    );
    in_either(
        calls_qualified(t.source, file, found, on_self, on_receiver) + inherits_at(t, file, 0)
            + imports_at(t, file, own_module(t, file), 0)
            + all_natives_in(t, file, package_parts(t), 1, t.after(0)),
        type_refs_at(t, file, 0),
        r,
    );
    in_either(
        calls_qualified(t.source, file, found, on_self, on_receiver) + inherits_at(t, file, 0)
            + imports_at(t, file, own_module(t, file), 0)
            + all_natives_in(t, file, package_parts(t), 1, t.after(0)) + type_refs_at(t, file, 0),
        reads_at(t, file, 0),
        r,
    );
    in_either(
        calls_qualified(t.source, file, found, on_self, on_receiver) + inherits_at(t, file, 0)
            + imports_at(t, file, own_module(t, file), 0)
            + all_natives_in(t, file, package_parts(t), 1, t.after(0)) + type_refs_at(t, file, 0)
            + reads_at(t, file, 0),
        writes_at(t, file, 0),
        r,
    );
    is_reported(
        facts_of(t, file, found, on_self, on_receiver),
        references_of(t, file, own_module(t, file), found, on_self, on_receiver),
        r,
    );
}

/// A call that the query on calls on the object itself reports at its place is
/// marked as one, without a qualifier.
pub proof fn calls_on_itself_are_marked(
    t: Syntax,
    file: Seq<char>,
    found: Seq<Seq<CaptureView>>,
    on_self: Seq<Seq<CaptureView>>,
    on_receiver: Seq<Seq<CaptureView>>,
    k: int,
    c: CaptureView,
)
    requires
        0 <= k < found.len(),
        captures(found[k], "callee"@, c),
        long_enough(text_between(t.source, c.start, c.end)),
        calls_at(on_self, c.start),
    ensures
        calls_name(
            facts_of(t, file, found, on_self, on_receiver),
            c,
            text_between(t.source, c.start, c.end),
            None,
            true,
        ),
{
    call_is_found(t.source, file, found, k, c);
    let plain = plain_call(t.source, file, found[k]);
    mark_is_found(on_self, c.start);
    qualified_call_is_found(t.source, file, found, on_self, on_receiver, plain);
    let r = receiver_marked(t.source, on_receiver, self_marked(on_self, plain));
    in_either(
        calls_qualified(t.source, file, found, on_self, on_receiver),
        inherits_at(t, file, 0),
        r,
    );
    in_either(
        calls_qualified(t.source, file, found, on_self, on_receiver) + inherits_at(t, file, 0),
        imports_at(t, file, own_module(t, file), 0),
        r,
    );
    in_either(
        calls_qualified(t.source, file, found, on_self, on_receiver) + inherits_at(t, file, 0)
            + imports_at(t, file, own_module(t, file), 0),
        all_natives_in(t, file, package_parts(t), 1, t.after(0)),
        r,
    );
    in_either(
        calls_qualified(t.source, file, found, on_self, on_receiver) + inherits_at(t, file, 0)
            + imports_at(t, file, own_module(t, file), 0)
            + all_natives_in(t, file, package_parts(t), 1, t.after(0)),
        type_refs_at(t, file, 0),
        r,
    );
    in_either(
        calls_qualified(t.source, file, found, on_self, on_receiver) + inherits_at(t, file, 0)
            + imports_at(t, file, own_module(t, file), 0)
            + all_natives_in(t, file, package_parts(t), 1, t.after(0)) + type_refs_at(t, file, 0),
        reads_at(t, file, 0),
        r,
    );
    in_either(
        calls_qualified(t.source, file, found, on_self, on_receiver) + inherits_at(t, file, 0)
            + imports_at(t, file, own_module(t, file), 0)
            + all_natives_in(t, file, package_parts(t), 1, t.after(0)) + type_refs_at(t, file, 0)
            + reads_at(t, file, 0),
        writes_at(t, file, 0),
        r,
    );
    is_reported(
        facts_of(t, file, found, on_self, on_receiver),
        references_of(t, file, own_module(t, file), found, on_self, on_receiver),
        r,
    );
}

/// A call without a qualifier that is none on the object itself has the
/// receiver that the first match at its place of the query on named receivers
/// reports.
pub proof fn receivers_qualify_calls(
    t: Syntax,
    file: Seq<char>,
    found: Seq<Seq<CaptureView>>,
    on_self: Seq<Seq<CaptureView>>,
    on_receiver: Seq<Seq<CaptureView>>,
    k: int,
    c: CaptureView,
    m: int,
    d: CaptureView,
    v: CaptureView,
)
    requires
        0 <= k < found.len(),
        captures(found[k], "callee"@, c),
        long_enough(text_between(t.source, c.start, c.end)),
        lacks(found[k], "qualifier"@),
        !calls_at(on_self, c.start),
        0 <= m < on_receiver.len(),
        captures(on_receiver[m], "callee"@, d),
        d.start == c.start,
        captures(on_receiver[m], "receiver"@, v),
        forall|e: int, b: CaptureView| 0 <= e < m
            && #[trigger] captures(on_receiver[e], "callee"@, b)
            ==> b.start != d.start,
    ensures
        calls_name(
            facts_of(t, file, found, on_self, on_receiver),
            c,
            text_between(t.source, c.start, c.end),
            Some(text_between(t.source, v.start, v.end)),
            false,
        ),
{
    call_is_found(t.source, file, found, k, c);
    let plain = plain_call(t.source, file, found[k]);
    mark_is_found(on_self, c.start);
    qualified_call_is_found(t.source, file, found, on_self, on_receiver, plain);
    receiver_is_found(t.source, on_receiver, m, d, v);
    let r = receiver_marked(t.source, on_receiver, self_marked(on_self, plain));
    in_either(
        calls_qualified(t.source, file, found, on_self, on_receiver),
        inherits_at(t, file, 0),
        r,
    );
    in_either(
        calls_qualified(t.source, file, found, on_self, on_receiver) + inherits_at(t, file, 0),
        imports_at(t, file, own_module(t, file), 0),
        r,
    );
    in_either(
        calls_qualified(t.source, file, found, on_self, on_receiver) + inherits_at(t, file, 0)
            + imports_at(t, file, own_module(t, file), 0),
        all_natives_in(t, file, package_parts(t), 1, t.after(0)),
        r,
    );
    in_either(
        calls_qualified(t.source, file, found, on_self, on_receiver) + inherits_at(t, file, 0)
            + imports_at(t, file, own_module(t, file), 0)
            + all_natives_in(t, file, package_parts(t), 1, t.after(0)),
        type_refs_at(t, file, 0),
        r,
    );
    in_either(
        calls_qualified(t.source, file, found, on_self, on_receiver) + inherits_at(t, file, 0)
            + imports_at(t, file, own_module(t, file), 0)
            + all_natives_in(t, file, package_parts(t), 1, t.after(0)) + type_refs_at(t, file, 0),
        reads_at(t, file, 0),
        r,
    );
    in_either(
        calls_qualified(t.source, file, found, on_self, on_receiver) + inherits_at(t, file, 0)
            + imports_at(t, file, own_module(t, file), 0)
            + all_natives_in(t, file, package_parts(t), 1, t.after(0)) + type_refs_at(t, file, 0)
            + reads_at(t, file, 0),
        writes_at(t, file, 0),
        r,
    );
    is_reported(
        facts_of(t, file, found, on_self, on_receiver),
        references_of(t, file, own_module(t, file), found, on_self, on_receiver),
        r,
    );
}

} // verus!
