//! What the facts of Dart files tell of their nodes.

use crate::extract::dart::{
    any_show_in, bases_under, bindings_at, bindings_in_document_order, bindings_of_nodes,
    constants_in, declared_bases, definition, definitions_in, facts_of, identifiers_in,
    imports_at, imports_in_document_order, imports_of, imports_of_nodes, inherits_at,
    inherits_in_document_order, inherits_of_nodes, introduced, is_builtin, is_show,
    is_signature, is_variable_list, last_identifier_in, leaves_at, leaves_in, libraries_in,
    local_at, member_symbols, members_in, method_symbols, more_locals_in, name_of_type,
    namespaces_of, not_read, on_types_in, own_type_refs, param_at, params_in, plain, read_of,
    reads_at, reads_in_document_order, reads_of_nodes, references_of, returned_refs,
    scopes_with, scopes_with_all, shown_in, shown_names_in, shows_in, signature_name, signed_in,
    signed_name_in, specified, specified_in, string_at, string_in, symbols_at, symbols_in,
    type_name_ref, type_names_at, type_names_in, type_refs_at, type_refs_in,
    type_refs_in_document_order, type_refs_of_nodes, type_symbols, typed_refs, uri_of,
    variable_lists_in, variable_symbols, variables_in, visibility_of, wrapped_in, write_of,
    writes_at, writes_in_document_order, writes_of_nodes, written, written_type,
};
use crate::extract::{
    Ctx, at_file_level, calls_marked, definitions_bound, extends, import_at, imports_bound,
    local_binding, module_scope, module_view, occurrence_at, reference_at, self_marked, span_at,
    type_reference_at,
};
use crate::graph::types::{
    BindingKind, BindingView, RefRole, ReferenceView, Scope, ScopeId, ScopeKind, SymbolKind,
    SymbolView, TypeRefContext, Visibility,
};
use crate::items::{in_order_all, in_order_each};
use crate::lang::Language;
use crate::laws::dart::{
    definitions_belong, is_defined, is_read, locals_are_nested, reads_are_sound,
};
use crate::laws::{belongs, identifiers_apart};
use crate::parse::CaptureView;
use crate::symbol::{DescriptorView, method_view, namespace_steps, scip_text};
use crate::syntax::{Syntax, field_is_child, group_child_bounds};
use crate::text::{byte_count, has_prefix, one_line, own_suffix, simple_name, text_between};
use super::bound::{
    binds_definition, binds_import, bound_has_origin, definition_is_bound, has_origin,
    imported_is_bound, is_scoped, place_is_scoped,
};
use super::calls::{
    call_is_found, calls_at, calls_name, captures, lacks, mark_is_found, marked_call_is_found,
    plain_call,
};
use super::texts::{are_parts, join, joined_comes_apart, prefix_comes_off};
use super::{
    binds, binds_as, child_stands_in_field, defines_as, defines_in, earlier_ends_before,
    extends_module, file_level_is_outside, imports, in_either, is_at, is_module, is_reported,
    local_is_bound, long_enough, opens_scope, opens_scope_stays, outside_code,
    quotes_are_taken_off, reached_is_behind, refers, refers_to_type, reported, scope_is_within,
    starts_with,
};
use vstd::prelude::*;

verus! {

broadcast use group_child_bounds;

/// The text of the module of a file.
spec fn own_module(t: Syntax, file: Seq<char>) -> Seq<char> {
    scip_text(
        module_view(Language::Dart, namespaces_of(file), file, byte_count(t.source) as int).id,
    )
}

/// What the definitions of a file are read from.
spec fn context(t: Syntax, file: Seq<char>) -> Ctx {
    Ctx { tree: t, file, lang: Language::Dart }
}

/// The steps that lead to the definitions of a file.
spec fn steps(t: Syntax, file: Seq<char>) -> Seq<DescriptorView> {
    namespace_steps(namespaces_of(file))
}

proof fn symbols_at_kinds()
    ensures
        "class_declaration"@ != "mixin_declaration"@,
        "class_declaration"@ != "enum_declaration"@,
        "class_declaration"@ != "extension_declaration"@,
        "class_declaration"@ != "type_alias"@,
        "class_declaration"@ != "function_declaration"@,
        "class_declaration"@ != "external_function_declaration"@,
        "class_declaration"@ != "top_level_variable_declaration"@,
        "class_declaration"@ != "external_variable_declaration"@,
        "mixin_declaration"@ != "enum_declaration"@,
        "mixin_declaration"@ != "extension_declaration"@,
        "mixin_declaration"@ != "type_alias"@,
        "mixin_declaration"@ != "function_declaration"@,
        "mixin_declaration"@ != "external_function_declaration"@,
        "mixin_declaration"@ != "top_level_variable_declaration"@,
        "mixin_declaration"@ != "external_variable_declaration"@,
        "enum_declaration"@ != "extension_declaration"@,
        "enum_declaration"@ != "type_alias"@,
        "enum_declaration"@ != "function_declaration"@,
        "enum_declaration"@ != "external_function_declaration"@,
        "enum_declaration"@ != "top_level_variable_declaration"@,
        "enum_declaration"@ != "external_variable_declaration"@,
        "extension_declaration"@ != "type_alias"@,
        "extension_declaration"@ != "function_declaration"@,
        "extension_declaration"@ != "external_function_declaration"@,
        "extension_declaration"@ != "top_level_variable_declaration"@,
        "extension_declaration"@ != "external_variable_declaration"@,
        "type_alias"@ != "function_declaration"@,
        "type_alias"@ != "external_function_declaration"@,
        "type_alias"@ != "top_level_variable_declaration"@,
        "type_alias"@ != "external_variable_declaration"@,
        "function_declaration"@ != "external_function_declaration"@,
        "function_declaration"@ != "top_level_variable_declaration"@,
        "function_declaration"@ != "external_variable_declaration"@,
        "external_function_declaration"@ != "top_level_variable_declaration"@,
        "external_function_declaration"@ != "external_variable_declaration"@,
        "top_level_variable_declaration"@ != "external_variable_declaration"@,
        "identifier"@ != "class_declaration"@,
        "identifier"@ != "mixin_declaration"@,
        "identifier"@ != "enum_declaration"@,
        "identifier"@ != "extension_declaration"@,
        "identifier"@ != "type_alias"@,
        "identifier"@ != "function_declaration"@,
        "identifier"@ != "external_function_declaration"@,
        "identifier"@ != "top_level_variable_declaration"@,
        "identifier"@ != "external_variable_declaration"@,
{
    reveal_strlit("class_declaration");
    reveal_strlit("mixin_declaration");
    reveal_strlit("enum_declaration");
    reveal_strlit("extension_declaration");
    reveal_strlit("type_alias");
    reveal_strlit("function_declaration");
    reveal_strlit("external_function_declaration");
    reveal_strlit("top_level_variable_declaration");
    reveal_strlit("external_variable_declaration");
    reveal_strlit("identifier");
    assert("class_declaration"@[0] != "mixin_declaration"@[0]);
    assert("class_declaration"@.len() != "enum_declaration"@.len());
    assert("class_declaration"@.len() != "extension_declaration"@.len());
    assert("class_declaration"@.len() != "type_alias"@.len());
    assert("class_declaration"@.len() != "function_declaration"@.len());
    assert("class_declaration"@.len() != "external_function_declaration"@.len());
    assert("class_declaration"@.len() != "top_level_variable_declaration"@.len());
    assert("class_declaration"@.len() != "external_variable_declaration"@.len());
    assert("mixin_declaration"@.len() != "enum_declaration"@.len());
    assert("mixin_declaration"@.len() != "extension_declaration"@.len());
    assert("mixin_declaration"@.len() != "type_alias"@.len());
    assert("mixin_declaration"@.len() != "function_declaration"@.len());
    assert("mixin_declaration"@.len() != "external_function_declaration"@.len());
    assert("mixin_declaration"@.len() != "top_level_variable_declaration"@.len());
    assert("mixin_declaration"@.len() != "external_variable_declaration"@.len());
    assert("enum_declaration"@.len() != "extension_declaration"@.len());
    assert("enum_declaration"@.len() != "type_alias"@.len());
    assert("enum_declaration"@.len() != "function_declaration"@.len());
    assert("enum_declaration"@.len() != "external_function_declaration"@.len());
    assert("enum_declaration"@.len() != "top_level_variable_declaration"@.len());
    assert("enum_declaration"@.len() != "external_variable_declaration"@.len());
    assert("extension_declaration"@.len() != "type_alias"@.len());
    assert("extension_declaration"@.len() != "function_declaration"@.len());
    assert("extension_declaration"@.len() != "external_function_declaration"@.len());
    assert("extension_declaration"@.len() != "top_level_variable_declaration"@.len());
    assert("extension_declaration"@.len() != "external_variable_declaration"@.len());
    assert("type_alias"@.len() != "function_declaration"@.len());
    assert("type_alias"@.len() != "external_function_declaration"@.len());
    assert("type_alias"@.len() != "top_level_variable_declaration"@.len());
    assert("type_alias"@.len() != "external_variable_declaration"@.len());
    assert("function_declaration"@.len() != "external_function_declaration"@.len());
    assert("function_declaration"@.len() != "top_level_variable_declaration"@.len());
    assert("function_declaration"@.len() != "external_variable_declaration"@.len());
    assert("external_function_declaration"@.len() != "top_level_variable_declaration"@.len());
    assert("external_function_declaration"@[9] != "external_variable_declaration"@[9]);
    assert("top_level_variable_declaration"@.len() != "external_variable_declaration"@.len());
    assert("identifier"@.len() != "class_declaration"@.len());
    assert("identifier"@.len() != "mixin_declaration"@.len());
    assert("identifier"@.len() != "enum_declaration"@.len());
    assert("identifier"@.len() != "extension_declaration"@.len());
    assert("identifier"@[0] != "type_alias"@[0]);
    assert("identifier"@.len() != "function_declaration"@.len());
    assert("identifier"@.len() != "external_function_declaration"@.len());
    assert("identifier"@.len() != "top_level_variable_declaration"@.len());
    assert("identifier"@.len() != "external_variable_declaration"@.len());
}

proof fn variable_name_kinds()
    ensures
        "top_level_variable_declaration"@ != "initialized_identifier"@,
        "top_level_variable_declaration"@ != "static_final_declaration"@,
        "top_level_variable_declaration"@ != "identifier"@,
        "external_variable_declaration"@ != "initialized_identifier"@,
        "external_variable_declaration"@ != "static_final_declaration"@,
        "external_variable_declaration"@ != "identifier"@,
        "identifier"@ != "initialized_identifier"@,
        "identifier"@ != "static_final_declaration"@,
        "declaration"@ != "initialized_identifier"@,
        "declaration"@ != "static_final_declaration"@,
        "declaration"@ != "identifier"@,
{
    reveal_strlit("top_level_variable_declaration");
    reveal_strlit("initialized_identifier");
    reveal_strlit("static_final_declaration");
    reveal_strlit("identifier");
    reveal_strlit("external_variable_declaration");
    reveal_strlit("declaration");
    assert("top_level_variable_declaration"@.len() != "initialized_identifier"@.len());
    assert("top_level_variable_declaration"@.len() != "static_final_declaration"@.len());
    assert("top_level_variable_declaration"@.len() != "identifier"@.len());
    assert("external_variable_declaration"@.len() != "initialized_identifier"@.len());
    assert("external_variable_declaration"@.len() != "static_final_declaration"@.len());
    assert("external_variable_declaration"@.len() != "identifier"@.len());
    assert("identifier"@.len() != "initialized_identifier"@.len());
    assert("identifier"@.len() != "static_final_declaration"@.len());
    assert("declaration"@.len() != "initialized_identifier"@.len());
    assert("declaration"@.len() != "static_final_declaration"@.len());
    assert("declaration"@.len() != "identifier"@.len());
}

proof fn member_symbols_kinds()
    ensures
        "method_declaration"@ != "declaration"@,
        "identifier"@ != "method_declaration"@,
        "identifier"@ != "declaration"@,
{
    reveal_strlit("method_declaration");
    reveal_strlit("declaration");
    reveal_strlit("identifier");
    assert("method_declaration"@.len() != "declaration"@.len());
    assert("identifier"@.len() != "method_declaration"@.len());
    assert("identifier"@.len() != "declaration"@.len());
}

proof fn declared_bases_kinds()
    ensures
        "mixin_declaration"@ != "class_declaration"@,
{
    reveal_strlit("mixin_declaration");
    reveal_strlit("class_declaration");
    assert("mixin_declaration"@[0] != "class_declaration"@[0]);
}

proof fn own_type_refs_kinds()
    ensures
        "type_identifier"@ != "formal_parameter"@,
        "type_identifier"@ != "top_level_variable_declaration"@,
        "type_identifier"@ != "declaration"@,
        "type"@ != "formal_parameter"@,
        "type"@ != "top_level_variable_declaration"@,
        "type"@ != "declaration"@,
        "formal_parameter"@ != "top_level_variable_declaration"@,
        "formal_parameter"@ != "declaration"@,
        "top_level_variable_declaration"@ != "declaration"@,
{
    reveal_strlit("type_identifier");
    reveal_strlit("formal_parameter");
    reveal_strlit("top_level_variable_declaration");
    reveal_strlit("declaration");
    reveal_strlit("type");
    assert("type_identifier"@.len() != "formal_parameter"@.len());
    assert("type_identifier"@.len() != "top_level_variable_declaration"@.len());
    assert("type_identifier"@.len() != "declaration"@.len());
    assert("type"@.len() != "formal_parameter"@.len());
    assert("type"@.len() != "top_level_variable_declaration"@.len());
    assert("type"@.len() != "declaration"@.len());
    assert("formal_parameter"@.len() != "top_level_variable_declaration"@.len());
    assert("formal_parameter"@.len() != "declaration"@.len());
    assert("top_level_variable_declaration"@.len() != "declaration"@.len());
}

proof fn leaves_at_kinds()
    ensures
        "type_identifier"@ != "void_type"@,
        "type_identifier"@ != "type"@,
        "type"@ != "void_type"@,
        "formal_parameter"@ != "void_type"@,
        "formal_parameter"@ != "type_identifier"@,
        "formal_parameter"@ != "type"@,
        "top_level_variable_declaration"@ != "void_type"@,
        "top_level_variable_declaration"@ != "type_identifier"@,
        "top_level_variable_declaration"@ != "type"@,
        "declaration"@ != "void_type"@,
        "declaration"@ != "type_identifier"@,
        "declaration"@ != "type"@,
{
    reveal_strlit("type_identifier");
    reveal_strlit("void_type");
    reveal_strlit("type");
    reveal_strlit("formal_parameter");
    reveal_strlit("top_level_variable_declaration");
    reveal_strlit("declaration");
    assert("type_identifier"@.len() != "void_type"@.len());
    assert("type_identifier"@.len() != "type"@.len());
    assert("type"@.len() != "void_type"@.len());
    assert("formal_parameter"@.len() != "void_type"@.len());
    assert("formal_parameter"@.len() != "type_identifier"@.len());
    assert("formal_parameter"@.len() != "type"@.len());
    assert("top_level_variable_declaration"@.len() != "void_type"@.len());
    assert("top_level_variable_declaration"@.len() != "type_identifier"@.len());
    assert("top_level_variable_declaration"@.len() != "type"@.len());
    assert("declaration"@.len() != "void_type"@.len());
    assert("declaration"@.len() != "type_identifier"@.len());
    assert("declaration"@.len() != "type"@.len());
}

proof fn is_signature_kinds()
    ensures
        "type_identifier"@ != "function_signature"@,
        "type_identifier"@ != "getter_signature"@,
        "type_identifier"@ != "setter_signature"@,
        "type_identifier"@ != "operator_signature"@,
        "type_identifier"@ != "constructor_signature"@,
        "type_identifier"@ != "constant_constructor_signature"@,
        "type_identifier"@ != "factory_constructor_signature"@,
        "type_identifier"@ != "redirecting_factory_constructor_signature"@,
        "type"@ != "function_signature"@,
        "type"@ != "getter_signature"@,
        "type"@ != "setter_signature"@,
        "type"@ != "operator_signature"@,
        "type"@ != "constructor_signature"@,
        "type"@ != "constant_constructor_signature"@,
        "type"@ != "factory_constructor_signature"@,
        "type"@ != "redirecting_factory_constructor_signature"@,
        "formal_parameter"@ != "function_signature"@,
        "formal_parameter"@ != "getter_signature"@,
        "formal_parameter"@ != "setter_signature"@,
        "formal_parameter"@ != "operator_signature"@,
        "formal_parameter"@ != "constructor_signature"@,
        "formal_parameter"@ != "constant_constructor_signature"@,
        "formal_parameter"@ != "factory_constructor_signature"@,
        "formal_parameter"@ != "redirecting_factory_constructor_signature"@,
        "top_level_variable_declaration"@ != "function_signature"@,
        "top_level_variable_declaration"@ != "getter_signature"@,
        "top_level_variable_declaration"@ != "setter_signature"@,
        "top_level_variable_declaration"@ != "operator_signature"@,
        "top_level_variable_declaration"@ != "constructor_signature"@,
        "top_level_variable_declaration"@ != "constant_constructor_signature"@,
        "top_level_variable_declaration"@ != "factory_constructor_signature"@,
        "top_level_variable_declaration"@ != "redirecting_factory_constructor_signature"@,
        "declaration"@ != "function_signature"@,
        "declaration"@ != "getter_signature"@,
        "declaration"@ != "setter_signature"@,
        "declaration"@ != "operator_signature"@,
        "declaration"@ != "constructor_signature"@,
        "declaration"@ != "constant_constructor_signature"@,
        "declaration"@ != "factory_constructor_signature"@,
        "declaration"@ != "redirecting_factory_constructor_signature"@,
{
    reveal_strlit("type_identifier");
    reveal_strlit("function_signature");
    reveal_strlit("getter_signature");
    reveal_strlit("setter_signature");
    reveal_strlit("operator_signature");
    reveal_strlit("constructor_signature");
    reveal_strlit("constant_constructor_signature");
    reveal_strlit("factory_constructor_signature");
    reveal_strlit("redirecting_factory_constructor_signature");
    reveal_strlit("type");
    reveal_strlit("formal_parameter");
    reveal_strlit("top_level_variable_declaration");
    reveal_strlit("declaration");
    assert("type_identifier"@.len() != "function_signature"@.len());
    assert("type_identifier"@.len() != "getter_signature"@.len());
    assert("type_identifier"@.len() != "setter_signature"@.len());
    assert("type_identifier"@.len() != "operator_signature"@.len());
    assert("type_identifier"@.len() != "constructor_signature"@.len());
    assert("type_identifier"@.len() != "constant_constructor_signature"@.len());
    assert("type_identifier"@.len() != "factory_constructor_signature"@.len());
    assert("type_identifier"@.len() != "redirecting_factory_constructor_signature"@.len());
    assert("type"@.len() != "function_signature"@.len());
    assert("type"@.len() != "getter_signature"@.len());
    assert("type"@.len() != "setter_signature"@.len());
    assert("type"@.len() != "operator_signature"@.len());
    assert("type"@.len() != "constructor_signature"@.len());
    assert("type"@.len() != "constant_constructor_signature"@.len());
    assert("type"@.len() != "factory_constructor_signature"@.len());
    assert("type"@.len() != "redirecting_factory_constructor_signature"@.len());
    assert("formal_parameter"@.len() != "function_signature"@.len());
    assert("formal_parameter"@[0] != "getter_signature"@[0]);
    assert("formal_parameter"@[0] != "setter_signature"@[0]);
    assert("formal_parameter"@.len() != "operator_signature"@.len());
    assert("formal_parameter"@.len() != "constructor_signature"@.len());
    assert("formal_parameter"@.len() != "constant_constructor_signature"@.len());
    assert("formal_parameter"@.len() != "factory_constructor_signature"@.len());
    assert("formal_parameter"@.len() != "redirecting_factory_constructor_signature"@.len());
    assert("top_level_variable_declaration"@.len() != "function_signature"@.len());
    assert("top_level_variable_declaration"@.len() != "getter_signature"@.len());
    assert("top_level_variable_declaration"@.len() != "setter_signature"@.len());
    assert("top_level_variable_declaration"@.len() != "operator_signature"@.len());
    assert("top_level_variable_declaration"@.len() != "constructor_signature"@.len());
    assert("top_level_variable_declaration"@[0] != "constant_constructor_signature"@[0]);
    assert("top_level_variable_declaration"@.len() != "factory_constructor_signature"@.len());
    assert("top_level_variable_declaration"@.len() != "redirecting_factory_constructor_signature"@.len());
    assert("declaration"@.len() != "function_signature"@.len());
    assert("declaration"@.len() != "getter_signature"@.len());
    assert("declaration"@.len() != "setter_signature"@.len());
    assert("declaration"@.len() != "operator_signature"@.len());
    assert("declaration"@.len() != "constructor_signature"@.len());
    assert("declaration"@.len() != "constant_constructor_signature"@.len());
    assert("declaration"@.len() != "factory_constructor_signature"@.len());
    assert("declaration"@.len() != "redirecting_factory_constructor_signature"@.len());
}

proof fn written_kinds()
    ensures
        "identifier"@ != "assignable_expression"@,
{
    reveal_strlit("identifier");
    reveal_strlit("assignable_expression");
    assert("identifier"@.len() != "assignable_expression"@.len());
}

proof fn introduced_kinds()
    ensures
        "function_declaration"@ != "method_declaration"@,
        "function_declaration"@ != "local_variable_declaration"@,
        "method_declaration"@ != "local_variable_declaration"@,
{
    reveal_strlit("function_declaration");
    reveal_strlit("method_declaration");
    reveal_strlit("local_variable_declaration");
    assert("function_declaration"@.len() != "method_declaration"@.len());
    assert("function_declaration"@.len() != "local_variable_declaration"@.len());
    assert("method_declaration"@.len() != "local_variable_declaration"@.len());
}

proof fn scopes_with_kinds()
    ensures
        "class_declaration"@ != "mixin_declaration"@,
        "class_declaration"@ != "enum_declaration"@,
        "class_declaration"@ != "extension_declaration"@,
        "class_declaration"@ != "function_declaration"@,
        "class_declaration"@ != "method_declaration"@,
        "class_declaration"@ != "block"@,
        "mixin_declaration"@ != "enum_declaration"@,
        "mixin_declaration"@ != "extension_declaration"@,
        "mixin_declaration"@ != "function_declaration"@,
        "mixin_declaration"@ != "method_declaration"@,
        "mixin_declaration"@ != "block"@,
        "enum_declaration"@ != "extension_declaration"@,
        "enum_declaration"@ != "function_declaration"@,
        "enum_declaration"@ != "method_declaration"@,
        "enum_declaration"@ != "block"@,
        "extension_declaration"@ != "function_declaration"@,
        "extension_declaration"@ != "method_declaration"@,
        "extension_declaration"@ != "block"@,
        "function_declaration"@ != "method_declaration"@,
        "function_declaration"@ != "block"@,
        "method_declaration"@ != "block"@,
{
    reveal_strlit("class_declaration");
    reveal_strlit("mixin_declaration");
    reveal_strlit("enum_declaration");
    reveal_strlit("extension_declaration");
    reveal_strlit("function_declaration");
    reveal_strlit("method_declaration");
    reveal_strlit("block");
    assert("class_declaration"@[0] != "mixin_declaration"@[0]);
    assert("class_declaration"@.len() != "enum_declaration"@.len());
    assert("class_declaration"@.len() != "extension_declaration"@.len());
    assert("class_declaration"@.len() != "function_declaration"@.len());
    assert("class_declaration"@.len() != "method_declaration"@.len());
    assert("class_declaration"@.len() != "block"@.len());
    assert("mixin_declaration"@.len() != "enum_declaration"@.len());
    assert("mixin_declaration"@.len() != "extension_declaration"@.len());
    assert("mixin_declaration"@.len() != "function_declaration"@.len());
    assert("mixin_declaration"@.len() != "method_declaration"@.len());
    assert("mixin_declaration"@.len() != "block"@.len());
    assert("enum_declaration"@.len() != "extension_declaration"@.len());
    assert("enum_declaration"@.len() != "function_declaration"@.len());
    assert("enum_declaration"@.len() != "method_declaration"@.len());
    assert("enum_declaration"@.len() != "block"@.len());
    assert("extension_declaration"@.len() != "function_declaration"@.len());
    assert("extension_declaration"@.len() != "method_declaration"@.len());
    assert("extension_declaration"@.len() != "block"@.len());
    assert("function_declaration"@.len() != "method_declaration"@.len());
    assert("function_declaration"@.len() != "block"@.len());
    assert("method_declaration"@.len() != "block"@.len());
}

proof fn inherits_reported(
    t: Syntax,
    file: Seq<char>,
    found: Seq<Seq<CaptureView>>,
    on_self: Seq<Seq<CaptureView>>,
    i: int,
    r: ReferenceView,
)
    requires
        t.nested(),
        0 <= i < t.after(0),
        declared_bases(t, file, i).contains(r),
    ensures
        reported(facts_of(t, file, found, on_self), r),
{
    inherits_in_document_order(t, file, 0);
    let k = choose|k: int| 0 <= k < declared_bases(t, file, i).len()
        && declared_bases(t, file, i)[k] == r;
    in_order_each(inherits_of_nodes(t, file), 0, t.after(0), i, k);
    assert(inherits_at(t, file, 0).contains(r));
    in_either(calls_marked(t.source, file, found, on_self), inherits_at(t, file, 0), r);
    in_either(
        calls_marked(t.source, file, found, on_self) + inherits_at(t, file, 0),
        imports_at(t, file, own_module(t, file), 0),
        r,
    );
    in_either(
        calls_marked(t.source, file, found, on_self) + inherits_at(t, file, 0)
            + imports_at(t, file, own_module(t, file), 0),
        type_refs_at(t, file, 0),
        r,
    );
    in_either(
        calls_marked(t.source, file, found, on_self) + inherits_at(t, file, 0)
            + imports_at(t, file, own_module(t, file), 0) + type_refs_at(t, file, 0),
        reads_at(t, file, 0),
        r,
    );
    in_either(
        calls_marked(t.source, file, found, on_self) + inherits_at(t, file, 0)
            + imports_at(t, file, own_module(t, file), 0) + type_refs_at(t, file, 0)
            + reads_at(t, file, 0),
        writes_at(t, file, 0),
        r,
    );
    is_reported(
        facts_of(t, file, found, on_self),
        references_of(t, file, own_module(t, file), found, on_self),
        r,
    );
}

proof fn imports_reported(
    t: Syntax,
    file: Seq<char>,
    found: Seq<Seq<CaptureView>>,
    on_self: Seq<Seq<CaptureView>>,
    i: int,
    r: ReferenceView,
)
    requires
        t.nested(),
        0 <= i < t.after(0),
        forall|j: int, k: int| t.has(j) && t.kind(j) == "import_or_export"@
            && j < k < #[trigger] t.after(j)
            ==> #[trigger] t.kind(k) != "import_or_export"@,
        imports_of(t, file, own_module(t, file), i).contains(r),
    ensures
        reported(facts_of(t, file, found, on_self), r),
{
    imports_in_document_order(t, file, own_module(t, file), 0);
    let k = choose|k: int| 0 <= k < imports_of(t, file, own_module(t, file), i).len()
        && imports_of(t, file, own_module(t, file), i)[k] == r;
    in_order_each(imports_of_nodes(t, file, own_module(t, file)), 0, t.after(0), i, k);
    assert(imports_at(t, file, own_module(t, file), 0).contains(r));
    in_either(
        calls_marked(t.source, file, found, on_self) + inherits_at(t, file, 0),
        imports_at(t, file, own_module(t, file), 0),
        r,
    );
    in_either(
        calls_marked(t.source, file, found, on_self) + inherits_at(t, file, 0)
            + imports_at(t, file, own_module(t, file), 0),
        type_refs_at(t, file, 0),
        r,
    );
    in_either(
        calls_marked(t.source, file, found, on_self) + inherits_at(t, file, 0)
            + imports_at(t, file, own_module(t, file), 0) + type_refs_at(t, file, 0),
        reads_at(t, file, 0),
        r,
    );
    in_either(
        calls_marked(t.source, file, found, on_self) + inherits_at(t, file, 0)
            + imports_at(t, file, own_module(t, file), 0) + type_refs_at(t, file, 0)
            + reads_at(t, file, 0),
        writes_at(t, file, 0),
        r,
    );
    is_reported(
        facts_of(t, file, found, on_self),
        references_of(t, file, own_module(t, file), found, on_self),
        r,
    );
}

proof fn type_refs_reported(
    t: Syntax,
    file: Seq<char>,
    found: Seq<Seq<CaptureView>>,
    on_self: Seq<Seq<CaptureView>>,
    i: int,
    r: ReferenceView,
)
    requires
        t.nested(),
        0 <= i < t.after(0),
        own_type_refs(t, file, i).contains(r),
    ensures
        reported(facts_of(t, file, found, on_self), r),
{
    type_refs_in_document_order(t, file, 0);
    let k = choose|k: int| 0 <= k < own_type_refs(t, file, i).len()
        && own_type_refs(t, file, i)[k] == r;
    in_order_each(type_refs_of_nodes(t, file), 0, t.after(0), i, k);
    assert(type_refs_at(t, file, 0).contains(r));
    in_either(
        calls_marked(t.source, file, found, on_self) + inherits_at(t, file, 0)
            + imports_at(t, file, own_module(t, file), 0),
        type_refs_at(t, file, 0),
        r,
    );
    in_either(
        calls_marked(t.source, file, found, on_self) + inherits_at(t, file, 0)
            + imports_at(t, file, own_module(t, file), 0) + type_refs_at(t, file, 0),
        reads_at(t, file, 0),
        r,
    );
    in_either(
        calls_marked(t.source, file, found, on_self) + inherits_at(t, file, 0)
            + imports_at(t, file, own_module(t, file), 0) + type_refs_at(t, file, 0)
            + reads_at(t, file, 0),
        writes_at(t, file, 0),
        r,
    );
    is_reported(
        facts_of(t, file, found, on_self),
        references_of(t, file, own_module(t, file), found, on_self),
        r,
    );
}

proof fn reads_reported(
    t: Syntax,
    file: Seq<char>,
    found: Seq<Seq<CaptureView>>,
    on_self: Seq<Seq<CaptureView>>,
    i: int,
    r: ReferenceView,
)
    requires
        t.nested(),
        0 <= i < t.after(0),
        forall|j: int, k: int| t.has(j) && t.kind(j) == "identifier"@
            && j < k < #[trigger] t.after(j)
            ==> #[trigger] t.kind(k) != "identifier"@,
        read_of(t, file, i).contains(r),
    ensures
        reported(facts_of(t, file, found, on_self), r),
{
    reads_in_document_order(t, file, 0);
    let k = choose|k: int| 0 <= k < read_of(t, file, i).len() && read_of(t, file, i)[k] == r;
    in_order_each(reads_of_nodes(t, file), 0, t.after(0), i, k);
    assert(reads_at(t, file, 0).contains(r));
    in_either(
        calls_marked(t.source, file, found, on_self) + inherits_at(t, file, 0)
            + imports_at(t, file, own_module(t, file), 0) + type_refs_at(t, file, 0),
        reads_at(t, file, 0),
        r,
    );
    in_either(
        calls_marked(t.source, file, found, on_self) + inherits_at(t, file, 0)
            + imports_at(t, file, own_module(t, file), 0) + type_refs_at(t, file, 0)
            + reads_at(t, file, 0),
        writes_at(t, file, 0),
        r,
    );
    is_reported(
        facts_of(t, file, found, on_self),
        references_of(t, file, own_module(t, file), found, on_self),
        r,
    );
}

proof fn writes_reported(
    t: Syntax,
    file: Seq<char>,
    found: Seq<Seq<CaptureView>>,
    on_self: Seq<Seq<CaptureView>>,
    i: int,
    r: ReferenceView,
)
    requires
        t.nested(),
        0 <= i < t.after(0),
        write_of(t, file, i).contains(r),
    ensures
        reported(facts_of(t, file, found, on_self), r),
{
    writes_in_document_order(t, file, 0);
    let k = choose|k: int| 0 <= k < write_of(t, file, i).len() && write_of(t, file, i)[k] == r;
    in_order_each(writes_of_nodes(t, file), 0, t.after(0), i, k);
    assert(writes_at(t, file, 0).contains(r));
    in_either(
        calls_marked(t.source, file, found, on_self) + inherits_at(t, file, 0)
            + imports_at(t, file, own_module(t, file), 0) + type_refs_at(t, file, 0)
            + reads_at(t, file, 0),
        writes_at(t, file, 0),
        r,
    );
    is_reported(
        facts_of(t, file, found, on_self),
        references_of(t, file, own_module(t, file), found, on_self),
        r,
    );
}

proof fn bindings_reported(
    t: Syntax,
    file: Seq<char>,
    found: Seq<Seq<CaptureView>>,
    on_self: Seq<Seq<CaptureView>>,
    i: int,
    b: BindingView,
)
    requires
        t.nested(),
        0 <= i < t.after(0),
        introduced(t, facts_of(t, file, found, on_self).scopes, i).contains(b),
    ensures
        facts_of(t, file, found, on_self).bindings.contains(b),
{
    let scopes = facts_of(t, file, found, on_self).scopes;
    bindings_in_document_order(t, scopes, 0);
    let k = choose|k: int| 0 <= k < introduced(t, scopes, i).len()
        && introduced(t, scopes, i)[k] == b;
    in_order_each(bindings_of_nodes(t, scopes), 0, t.after(0), i, k);
    assert(bindings_at(t, scopes, 0).contains(b));
    starts_with(
        facts_of(t, file, found, on_self).bindings,
        bindings_at(t, facts_of(t, file, found, on_self).scopes, 0),
        b,
    );
}

proof fn variables_in_has(
    c: Ctx,
    prefix: Seq<DescriptorView>,
    owner: int,
    lo: int,
    hi: int,
    j: int,
    x: SymbolView,
)
    requires
        0 <= lo,
        hi <= c.tree.len(),
        c.tree.reaches(lo, hi, j),
        variable_symbols(c, prefix, owner, j).contains(x),
    ensures
        variables_in(c, prefix, owner, lo, hi).contains(x),
    decreases hi - lo,
{
    let own = variable_symbols(c, prefix, owner, lo);
    let rest = variables_in(c, prefix, owner, c.tree.next(lo, hi), hi);
    if j != lo {
        variables_in_has(c, prefix, owner, c.tree.next(lo, hi), hi, j, x);
    }
    in_either(own, rest, x);
}

proof fn variable_lists_in_has(
    c: Ctx,
    prefix: Seq<DescriptorView>,
    owner: int,
    lo: int,
    hi: int,
    j: int,
    x: SymbolView,
)
    requires
        0 <= lo,
        hi <= c.tree.len(),
        c.tree.reaches(lo, hi, j),
        ((if is_variable_list(c.tree, j) { variables_in(c, prefix, owner, j + 1, c.tree.after(j)) } else { Seq::empty() })).contains(
            x,
        ),
    ensures
        variable_lists_in(c, prefix, owner, lo, hi).contains(x),
    decreases hi - lo,
{
    let own = (if is_variable_list(c.tree, lo) { variables_in(c, prefix, owner, lo + 1, c.tree.after(lo)) } else { Seq::empty() });
    let rest = variable_lists_in(c, prefix, owner, c.tree.next(lo, hi), hi);
    if j != lo {
        variable_lists_in_has(c, prefix, owner, c.tree.next(lo, hi), hi, j, x);
    }
    in_either(own, rest, x);
}

proof fn signed_in_has(c: Ctx, prefix: Seq<DescriptorView>, lo: int, hi: int, j: int, x: SymbolView)
    requires
        0 <= lo,
        hi <= c.tree.len(),
        c.tree.reaches(lo, hi, j),
        ((if is_signature(c.tree, j) { method_symbols(c, prefix, signature_name(c.tree, j), j) } else { Seq::empty() })).contains(
            x,
        ),
    ensures
        signed_in(c, prefix, lo, hi).contains(x),
    decreases hi - lo,
{
    let own = (if is_signature(c.tree, lo) { method_symbols(c, prefix, signature_name(c.tree, lo), lo) } else { Seq::empty() });
    let rest = signed_in(c, prefix, c.tree.next(lo, hi), hi);
    if j != lo {
        signed_in_has(c, prefix, c.tree.next(lo, hi), hi, j, x);
    }
    in_either(own, rest, x);
}

proof fn wrapped_in_has(
    c: Ctx,
    prefix: Seq<DescriptorView>,
    lo: int,
    hi: int,
    j: int,
    x: SymbolView,
)
    requires
        0 <= lo,
        hi <= c.tree.len(),
        c.tree.reaches(lo, hi, j),
        member_symbols(c, prefix, j).contains(x),
    ensures
        wrapped_in(c, prefix, lo, hi).contains(x),
    decreases hi - lo,
{
    let own = member_symbols(c, prefix, lo);
    let rest = wrapped_in(c, prefix, c.tree.next(lo, hi), hi);
    if j != lo {
        wrapped_in_has(c, prefix, c.tree.next(lo, hi), hi, j, x);
    }
    in_either(own, rest, x);
}

proof fn members_in_has(
    c: Ctx,
    prefix: Seq<DescriptorView>,
    lo: int,
    hi: int,
    j: int,
    x: SymbolView,
)
    requires
        0 <= lo,
        hi <= c.tree.len(),
        c.tree.reaches(lo, hi, j),
        ((if c.tree.kind(j) == "class_member"@ { wrapped_in(c, prefix, j + 1, c.tree.after(j)) } else { Seq::empty() })).contains(
            x,
        ),
    ensures
        members_in(c, prefix, lo, hi).contains(x),
    decreases hi - lo,
{
    let own = (if c.tree.kind(lo) == "class_member"@ { wrapped_in(c, prefix, lo + 1, c.tree.after(lo)) } else { Seq::empty() });
    let rest = members_in(c, prefix, c.tree.next(lo, hi), hi);
    if j != lo {
        members_in_has(c, prefix, c.tree.next(lo, hi), hi, j, x);
    }
    in_either(own, rest, x);
}

proof fn constants_in_has(
    c: Ctx,
    prefix: Seq<DescriptorView>,
    lo: int,
    hi: int,
    j: int,
    x: SymbolView,
)
    requires
        0 <= lo,
        hi <= c.tree.len(),
        c.tree.reaches(lo, hi, j),
        ((match c.tree.field_text(j, "name"@) { Some(name) => if c.tree.kind(j) == "enum_constant"@ { seq![ definition( c, prefix, j, DescriptorView::Term(name), SymbolKind::Const, "{;,"@, ), ] } else { Seq::empty() }, None => Seq::empty(), })).contains(
            x,
        ),
    ensures
        constants_in(c, prefix, lo, hi).contains(x),
    decreases hi - lo,
{
    let own = (match c.tree.field_text(lo, "name"@) { Some(name) => if c.tree.kind(lo) == "enum_constant"@ { seq![ definition( c, prefix, lo, DescriptorView::Term(name), SymbolKind::Const, "{;,"@, ), ] } else { Seq::empty() }, None => Seq::empty(), });
    let rest = constants_in(c, prefix, c.tree.next(lo, hi), hi);
    if j != lo {
        constants_in_has(c, prefix, c.tree.next(lo, hi), hi, j, x);
    }
    in_either(own, rest, x);
}

proof fn symbols_in_has(
    c: Ctx,
    prefix: Seq<DescriptorView>,
    lo: int,
    hi: int,
    j: int,
    x: SymbolView,
)
    requires
        0 <= lo,
        hi <= c.tree.len(),
        c.tree.reaches(lo, hi, j),
        symbols_at(c, prefix, j).contains(x),
    ensures
        symbols_in(c, prefix, lo, hi).contains(x),
    decreases hi - lo,
{
    let own = symbols_at(c, prefix, lo);
    let rest = symbols_in(c, prefix, c.tree.next(lo, hi), hi);
    if j != lo {
        symbols_in_has(c, prefix, c.tree.next(lo, hi), hi, j, x);
    }
    in_either(own, rest, x);
}

proof fn shown_names_in_has(
    t: Syntax,
    file: Seq<char>,
    module: Seq<char>,
    from_path: Seq<char>,
    lo: int,
    hi: int,
    j: int,
    x: ReferenceView,
)
    requires
        0 <= lo,
        hi <= t.len(),
        t.reaches(lo, hi, j),
        ((if t.kind(j) == "identifier"@ { seq![import_at(t, file, j, t.text(j), module, from_path)] } else { Seq::empty() })).contains(
            x,
        ),
    ensures
        shown_names_in(t, file, module, from_path, lo, hi).contains(x),
    decreases hi - lo,
{
    let own = (if t.kind(lo) == "identifier"@ { seq![import_at(t, file, lo, t.text(lo), module, from_path)] } else { Seq::empty() });
    let rest = shown_names_in(t, file, module, from_path, t.next(lo, hi), hi);
    if j != lo {
        shown_names_in_has(t, file, module, from_path, t.next(lo, hi), hi, j, x);
    }
    in_either(own, rest, x);
}

proof fn shown_in_has(
    t: Syntax,
    file: Seq<char>,
    module: Seq<char>,
    from_path: Seq<char>,
    lo: int,
    hi: int,
    j: int,
    x: ReferenceView,
)
    requires
        0 <= lo,
        hi <= t.len(),
        t.reaches(lo, hi, j),
        ((if is_show(t, j) { shown_names_in(t, file, module, from_path, j + 1, t.after(j)) } else { Seq::empty() })).contains(
            x,
        ),
    ensures
        shown_in(t, file, module, from_path, lo, hi).contains(x),
    decreases hi - lo,
{
    let own = (if is_show(t, lo) { shown_names_in(t, file, module, from_path, lo + 1, t.after(lo)) } else { Seq::empty() });
    let rest = shown_in(t, file, module, from_path, t.next(lo, hi), hi);
    if j != lo {
        shown_in_has(t, file, module, from_path, t.next(lo, hi), hi, j, x);
    }
    in_either(own, rest, x);
}

proof fn specified_in_has(
    t: Syntax,
    file: Seq<char>,
    module: Seq<char>,
    lo: int,
    hi: int,
    j: int,
    x: ReferenceView,
)
    requires
        0 <= lo,
        hi <= t.len(),
        t.reaches(lo, hi, j),
        ((if t.kind(j) == "import_specification"@ { specified(t, file, module, j) } else { Seq::empty() })).contains(
            x,
        ),
    ensures
        specified_in(t, file, module, lo, hi).contains(x),
    decreases hi - lo,
{
    let own = (if t.kind(lo) == "import_specification"@ { specified(t, file, module, lo) } else { Seq::empty() });
    let rest = specified_in(t, file, module, t.next(lo, hi), hi);
    if j != lo {
        specified_in_has(t, file, module, t.next(lo, hi), hi, j, x);
    }
    in_either(own, rest, x);
}

proof fn libraries_in_has(
    t: Syntax,
    file: Seq<char>,
    module: Seq<char>,
    lo: int,
    hi: int,
    j: int,
    x: ReferenceView,
)
    requires
        0 <= lo,
        hi <= t.len(),
        t.reaches(lo, hi, j),
        ((if t.kind(j) == "library_import"@ { specified_in(t, file, module, j + 1, t.after(j)) } else { Seq::empty() })).contains(
            x,
        ),
    ensures
        libraries_in(t, file, module, lo, hi).contains(x),
    decreases hi - lo,
{
    let own = (if t.kind(lo) == "library_import"@ { specified_in(t, file, module, lo + 1, t.after(lo)) } else { Seq::empty() });
    let rest = libraries_in(t, file, module, t.next(lo, hi), hi);
    if j != lo {
        libraries_in_has(t, file, module, t.next(lo, hi), hi, j, x);
    }
    in_either(own, rest, x);
}

proof fn leaves_in_has(
    t: Syntax,
    file: Seq<char>,
    ctx: TypeRefContext,
    lo: int,
    hi: int,
    j: int,
    x: ReferenceView,
)
    requires
        0 <= lo,
        hi <= t.len(),
        t.reaches(lo, hi, j),
        ((if t.named(j) { leaves_at(t, file, ctx, j) } else { Seq::empty() })).contains(x),
    ensures
        leaves_in(t, file, ctx, lo, hi).contains(x),
    decreases hi - lo,
{
    let own = (if t.named(lo) { leaves_at(t, file, ctx, lo) } else { Seq::empty() });
    let rest = leaves_in(t, file, ctx, t.next(lo, hi), hi);
    if j != lo {
        leaves_in_has(t, file, ctx, t.next(lo, hi), hi, j, x);
    }
    in_either(own, rest, x);
}

proof fn more_locals_in_has(
    t: Syntax,
    scopes: Seq<Scope>,
    owner: int,
    lo: int,
    hi: int,
    j: int,
    x: BindingView,
)
    requires
        0 <= lo,
        hi <= t.len(),
        t.reaches(lo, hi, j),
        ((if t.named(j) && t.kind(j) == "initialized_identifier"@ { local_at(t, scopes, owner, j) } else { Seq::empty() })).contains(
            x,
        ),
    ensures
        more_locals_in(t, scopes, owner, lo, hi).contains(x),
    decreases hi - lo,
{
    let own = (if t.named(lo) && t.kind(lo) == "initialized_identifier"@ { local_at(t, scopes, owner, lo) } else { Seq::empty() });
    let rest = more_locals_in(t, scopes, owner, t.next(lo, hi), hi);
    if j != lo {
        more_locals_in_has(t, scopes, owner, t.next(lo, hi), hi, j, x);
    }
    in_either(own, rest, x);
}

proof fn definitions_in_has(t: Syntax, scopes: Seq<Scope>, lo: int, hi: int, j: int, x: BindingView)
    requires
        0 <= lo,
        hi <= t.len(),
        t.reaches(lo, hi, j),
        ((if t.kind(j) == "initialized_variable_definition"@ { local_at(t, scopes, j, j) + more_locals_in(t, scopes, j, j + 1, t.after(j)) } else { Seq::empty() })).contains(
            x,
        ),
    ensures
        definitions_in(t, scopes, lo, hi).contains(x),
    decreases hi - lo,
{
    let own = (if t.kind(lo) == "initialized_variable_definition"@ { local_at(t, scopes, lo, lo) + more_locals_in(t, scopes, lo, lo + 1, t.after(lo)) } else { Seq::empty() });
    let rest = definitions_in(t, scopes, t.next(lo, hi), hi);
    if j != lo {
        definitions_in_has(t, scopes, t.next(lo, hi), hi, j, x);
    }
    in_either(own, rest, x);
}

proof fn params_in_has(t: Syntax, scopes: Seq<Scope>, lo: int, hi: int, j: int, x: BindingView)
    requires
        0 <= lo,
        hi <= t.len(),
        t.reaches(lo, hi, j),
        param_at(t, scopes, j).contains(x),
    ensures
        params_in(t, scopes, lo, hi).contains(x),
    decreases hi - lo,
{
    let own = param_at(t, scopes, lo);
    let rest = params_in(t, scopes, t.next(lo, hi), hi);
    if j != lo {
        params_in_has(t, scopes, t.next(lo, hi), hi, j, x);
    }
    in_either(own, rest, x);
}

/// The visibility of a name: internal where it starts with an underscore.
pub open spec fn shown(name: Seq<char>) -> Visibility {
    if name.len() > 0 && name[0] == '_' {
        Visibility::Internal
    } else {
        Visibility::Public
    }
}

proof fn visibility_is_shown(name: Seq<char>)
    ensures
        visibility_of(name) == shown(name),
{
    reveal_strlit("_");
    if name.len() > 0 {
        if name[0] == '_' {
            assert(name.subrange(0, 1) =~= "_"@);
        } else if has_prefix(name, "_"@) {
            assert(name.subrange(0, 1)[0] == "_"@[0]);
        }
    }
}

/// A class, a mixin, an enum or an extension with a name at the top of a Dart
/// file is defined: a mixin as a trait, an extension as a class. It is internal
/// where its name starts with an underscore. A class that applies a mixin has
/// its name there.
pub proof fn types_are_defined(
    t: Syntax,
    file: Seq<char>,
    found: Seq<Seq<CaptureView>>,
    on_self: Seq<Seq<CaptureView>>,
    i: int,
    n: int,
)
    requires
        t.has_child(0, i),
        t.kind(i) == "class_declaration"@ || t.kind(i) == "mixin_declaration"@
            || t.kind(i) == "enum_declaration"@ || t.kind(i) == "extension_declaration"@,
        t.child_of_kind(i, "mixin_application_class"@) is None && t.child(i, "name"@) == Some(n)
            || (t.child_of_kind(i, "mixin_application_class"@) matches Some(a) && t.child_of_kind(a, "identifier"@) == Some(n)),
    ensures
        defines_as(
            facts_of(t, file, found, on_self),
            t,
            i,
            t.text(n),
            (if t.kind(i) == "mixin_declaration"@ { SymbolKind::Trait } else if t.kind(i) == "enum_declaration"@ { SymbolKind::Enum } else { SymbolKind::Class }),
            shown(t.text(n)),
        ),
{
    symbols_at_kinds();
    let c = context(t, file);
    let prefix = steps(t, file);
    visibility_is_shown(t.text(n));
    let x = symbols_at(c, prefix, i)[0];
    assert(symbols_at(c, prefix, i).contains(x));
    symbols_in_has(c, prefix, 1, t.after(0), i, x);
    starts_with(facts_of(t, file, found, on_self).symbols, symbols_in(c, prefix, 1, t.after(0)), x);
}

/// A type alias at the top of a Dart file is defined.
pub proof fn aliases_are_defined(
    t: Syntax,
    file: Seq<char>,
    found: Seq<Seq<CaptureView>>,
    on_self: Seq<Seq<CaptureView>>,
    i: int,
    n: int,
)
    requires
        t.has_child(0, i),
        t.kind(i) == "type_alias"@,
        t.child_of_kind(i, "type_identifier"@) == Some(n),
    ensures
        defines_as(
            facts_of(t, file, found, on_self),
            t,
            i,
            t.text(n),
            SymbolKind::TypeAlias,
            shown(t.text(n)),
        ),
{
    symbols_at_kinds();
    let c = context(t, file);
    let prefix = steps(t, file);
    visibility_is_shown(t.text(n));
    let x = symbols_at(c, prefix, i)[0];
    assert(symbols_at(c, prefix, i).contains(x));
    symbols_in_has(c, prefix, 1, t.after(0), i, x);
    starts_with(facts_of(t, file, found, on_self).symbols, symbols_in(c, prefix, 1, t.after(0)), x);
}

/// A function at the top of a Dart file is defined, an external one too.
pub proof fn functions_are_defined(
    t: Syntax,
    file: Seq<char>,
    found: Seq<Seq<CaptureView>>,
    on_self: Seq<Seq<CaptureView>>,
    i: int,
    s: int,
    n: int,
)
    requires
        t.has_child(0, i),
        t.kind(i) == "function_declaration"@ || t.kind(i) == "external_function_declaration"@,
        t.child(i, "signature"@) == Some(s),
        t.child(s, "name"@) == Some(n),
    ensures
        defines_as(
            facts_of(t, file, found, on_self),
            t,
            i,
            t.text(n),
            SymbolKind::Function,
            shown(t.text(n)),
        ),
{
    symbols_at_kinds();
    let c = context(t, file);
    let prefix = steps(t, file);
    visibility_is_shown(t.text(n));
    let x = symbols_at(c, prefix, i)[0];
    assert(symbols_at(c, prefix, i).contains(x));
    symbols_in_has(c, prefix, 1, t.after(0), i, x);
    starts_with(facts_of(t, file, found, on_self).symbols, symbols_in(c, prefix, 1, t.after(0)), x);
}

/// Each variable at the top of a Dart file is a static variable at its
/// declaration.
pub proof fn variables_are_defined(
    t: Syntax,
    file: Seq<char>,
    found: Seq<Seq<CaptureView>>,
    on_self: Seq<Seq<CaptureView>>,
    i: int,
    list: int,
    d: int,
    n: int,
)
    requires
        t.has_child(0, i),
        t.kind(i) == "top_level_variable_declaration"@
            || t.kind(i) == "external_variable_declaration"@,
        t.has_child(i, list),
        t.kind(list) == "initialized_identifier_list"@
            || t.kind(list) == "static_final_declaration_list"@
            || t.kind(list) == "identifier_list"@,
        t.has_child(list, d),
        (t.kind(d) == "identifier"@ && n == d)
            || ((t.kind(d) == "initialized_identifier"@ || t.kind(d) == "static_final_declaration"@) && t.child(d, "name"@) == Some(n)),
    ensures
        defines_as(
            facts_of(t, file, found, on_self),
            t,
            i,
            t.text(n),
            SymbolKind::Static,
            shown(t.text(n)),
        ),
{
    symbols_at_kinds();
    variable_name_kinds();
    let c = context(t, file);
    let prefix = steps(t, file);
    visibility_is_shown(t.text(n));
    reached_is_behind(t, 1, t.after(0), i);
    let x = definition(c, prefix, i, DescriptorView::Term(t.text(n)), SymbolKind::Static, "{;"@);
    reached_is_behind(t, i + 1, t.after(i), list);
    reached_is_behind(t, list + 1, t.after(list), d);
    assert(variable_symbols(c, prefix, i, d)[0] == x);
    variables_in_has(c, prefix, i, list + 1, t.after(list), d, x);
    variable_lists_in_has(c, prefix, i, i + 1, t.after(i), list, x);
    symbols_in_has(c, prefix, 1, t.after(0), i, x);
    starts_with(facts_of(t, file, found, on_self).symbols, symbols_in(c, prefix, 1, t.after(0)), x);
}

/// The steps under which the members of a type are defined.
proof fn members_are_placed(
    c: Ctx,
    prefix: Seq<DescriptorView>,
    i: int,
    n: int,
    body: int,
) -> (outer: SymbolView)
    requires
        c.tree.has_child(0, i),
        ({
            let t = c.tree;
            t.kind(i) == "class_declaration"@ || t.kind(i) == "mixin_declaration"@
                || t.kind(i) == "enum_declaration"@ || t.kind(i) == "extension_declaration"@
        }),
        ({
            let t = c.tree;
            t.child_of_kind(i, "mixin_application_class"@) is None && t.child(i, "name"@) == Some(n)
                || (t.child_of_kind(i, "mixin_application_class"@) matches Some(a) && t.child_of_kind(a, "identifier"@) == Some(n))
        }),
        c.tree.child(i, "body"@) == Some(body),
    ensures
        symbols_in(c, prefix, 1, c.tree.after(0)).contains(outer),
        outer.occ == occurrence_at(c.tree, c.file, i),
        forall|x: SymbolView| #[trigger] constants_in(c, outer.id, body + 1, c.tree.after(body)).contains(
            x,
        )
            ==> symbols_in(c, prefix, 1, c.tree.after(0)).contains(x),
        forall|x: SymbolView| #[trigger] members_in(c, outer.id, body + 1, c.tree.after(body)).contains(
            x,
        )
            ==> symbols_in(c, prefix, 1, c.tree.after(0)).contains(x),
{
    symbols_at_kinds();
    let t = c.tree;
    let at = prefix + seq![DescriptorView::Type(t.text(n))];
    let constants = constants_in(c, at, body + 1, t.after(body));
    let members = members_in(c, at, body + 1, t.after(body));
    let first = seq![symbols_at(c, prefix, i)[0]];
    assert(symbols_at(c, prefix, i) =~= first + (constants + members));
    assert forall|x: SymbolView| constants.contains(x) || members.contains(x) implies symbols_in(c, prefix, 1, t.after(0)).contains(x) by {
        in_either(constants, members, x);
        in_either(first, constants + members, x);
        symbols_in_has(c, prefix, 1, t.after(0), i, x);
    }
    let outer = symbols_at(c, prefix, i)[0];
    assert(symbols_at(c, prefix, i).contains(outer));
    symbols_in_has(c, prefix, 1, t.after(0), i, outer);
    assert(outer.id =~= at);
    outer
}

/// Each constant of an enum at the top of a Dart file is a constant.
pub proof fn enum_constants_are_defined(
    t: Syntax,
    file: Seq<char>,
    found: Seq<Seq<CaptureView>>,
    on_self: Seq<Seq<CaptureView>>,
    owner: int,
    m: int,
    body: int,
    i: int,
    n: int,
)
    requires
        t.has_child(0, owner),
        t.kind(owner) == "class_declaration"@ || t.kind(owner) == "mixin_declaration"@
            || t.kind(owner) == "enum_declaration"@ || t.kind(owner) == "extension_declaration"@,
        t.child_of_kind(owner, "mixin_application_class"@) is None
            && t.child(owner, "name"@) == Some(m)
            || (t.child_of_kind(owner, "mixin_application_class"@) matches Some(a) && t.child_of_kind(a, "identifier"@) == Some(m)),
        t.child(owner, "body"@) == Some(body),
        t.has_child(body, i),
        t.kind(i) == "enum_constant"@,
        t.child(i, "name"@) == Some(n),
    ensures
        defines_as(
            facts_of(t, file, found, on_self),
            t,
            i,
            t.text(n),
            SymbolKind::Const,
            shown(t.text(n)),
        ),
        defines_in(facts_of(t, file, found, on_self), t, owner, i, t.text(n), SymbolKind::Const),
{
    let c = context(t, file);
    let prefix = steps(t, file);
    let outer = members_are_placed(c, prefix, owner, m, body);
    let at = outer.id;
    visibility_is_shown(t.text(n));
    let x = definition(c, at, i, DescriptorView::Term(t.text(n)), SymbolKind::Const, "{;,"@);
    assert(seq![x][0] == x);
    constants_in_has(c, at, body + 1, t.after(body), i, x);
    starts_with(facts_of(t, file, found, on_self).symbols, symbols_in(c, prefix, 1, t.after(0)), x);
    starts_with(
        facts_of(t, file, found, on_self).symbols,
        symbols_in(c, prefix, 1, t.after(0)),
        outer,
    );
    assert(x.id =~= outer.id.push(x.id.last()));
}

/// Whether a node is a signature.
pub open spec fn signs(t: Syntax, s: int) -> bool {
    ||| t.kind(s) == "function_signature"@
    ||| t.kind(s) == "getter_signature"@
    ||| t.kind(s) == "setter_signature"@
    ||| t.kind(s) == "operator_signature"@
    ||| t.kind(s) == "constructor_signature"@
    ||| t.kind(s) == "constant_constructor_signature"@
    ||| t.kind(s) == "factory_constructor_signature"@
    ||| t.kind(s) == "redirecting_factory_constructor_signature"@
}

/// Whether the signature `s` has its name at node `n`: an operator has its
/// symbol there.
pub open spec fn is_signed(t: Syntax, s: int, n: int) -> bool {
    signs(t, s)
        && t.child(s, if t.kind(s) == "operator_signature"@ { "operator"@ } else { "name"@ }) == Some(
            n,
        )
}

proof fn first_signed(t: Syntax, lo: int, hi: int, s: int, n: int)
    requires
        t.reaches(lo, hi, s),
        is_signed(t, s, n),
        forall|e: int| #[trigger] t.reaches(lo, hi, e) && e < s ==> !signs(t, e),
    ensures
        signed_name_in(t, lo, hi) == Some(t.text(n)),
    decreases hi - lo,
{
    if lo != s {
        reached_is_behind(t, lo, hi, s);
        assert(t.reaches(lo, hi, lo));
        assert forall|e: int| #[trigger] t.reaches(t.next(lo, hi), hi, e) && e < s implies !signs(t, e) by {
            assert(t.reaches(lo, hi, e));
        }
        first_signed(t, t.next(lo, hi), hi, s, n);
    }
}

/// Each method with a body in a type at the top of a Dart file is a method
/// under the name of the first signature that it holds.
pub proof fn methods_are_defined(
    t: Syntax,
    file: Seq<char>,
    found: Seq<Seq<CaptureView>>,
    on_self: Seq<Seq<CaptureView>>,
    owner: int,
    m: int,
    body: int,
    w: int,
    i: int,
    sig: int,
    s: int,
    n: int,
)
    requires
        t.has_child(0, owner),
        t.kind(owner) == "class_declaration"@ || t.kind(owner) == "mixin_declaration"@
            || t.kind(owner) == "enum_declaration"@ || t.kind(owner) == "extension_declaration"@,
        t.child_of_kind(owner, "mixin_application_class"@) is None
            && t.child(owner, "name"@) == Some(m)
            || (t.child_of_kind(owner, "mixin_application_class"@) matches Some(a) && t.child_of_kind(a, "identifier"@) == Some(m)),
        t.child(owner, "body"@) == Some(body),
        t.has_child(body, w),
        t.kind(w) == "class_member"@,
        t.has_child(w, i),
        t.kind(i) == "method_declaration"@,
        t.child(i, "signature"@) == Some(sig),
        t.has_child(sig, s),
        is_signed(t, s, n),
        forall|e: int| #[trigger] t.has_child(sig, e) && e < s ==> !signs(t, e),
    ensures
        defines_as(
            facts_of(t, file, found, on_self),
            t,
            i,
            t.text(n),
            SymbolKind::Method,
            shown(t.text(n)),
        ),
        defines_in(facts_of(t, file, found, on_self), t, owner, i, t.text(n), SymbolKind::Method),
{
    member_symbols_kinds();
    let c = context(t, file);
    let prefix = steps(t, file);
    let outer = members_are_placed(c, prefix, owner, m, body);
    let at = outer.id;
    visibility_is_shown(t.text(n));
    reached_is_behind(t, body + 1, t.after(body), w);
    reached_is_behind(t, w + 1, t.after(w), i);
    let x = definition(c, at, i, method_view(t.text(n)), SymbolKind::Method, "{;="@);
    assert forall|e: int| #[trigger] t.reaches(sig + 1, t.after(sig), e) && e < s implies !signs(t, e) by {
        assert(t.has_child(sig, e));
    }
    first_signed(t, sig + 1, t.after(sig), s, n);
    assert(member_symbols(c, at, i)[0] == x);
    wrapped_in_has(c, at, w + 1, t.after(w), i, x);
    members_in_has(c, at, body + 1, t.after(body), w, x);
    starts_with(facts_of(t, file, found, on_self).symbols, symbols_in(c, prefix, 1, t.after(0)), x);
    starts_with(
        facts_of(t, file, found, on_self).symbols,
        symbols_in(c, prefix, 1, t.after(0)),
        outer,
    );
    assert(x.id =~= outer.id.push(x.id.last()));
}

/// Each signature of a declaration without a body in a type at the top of a
/// Dart file is a method.
pub proof fn signatures_are_defined(
    t: Syntax,
    file: Seq<char>,
    found: Seq<Seq<CaptureView>>,
    on_self: Seq<Seq<CaptureView>>,
    owner: int,
    m: int,
    body: int,
    w: int,
    i: int,
    s: int,
    n: int,
)
    requires
        t.has_child(0, owner),
        t.kind(owner) == "class_declaration"@ || t.kind(owner) == "mixin_declaration"@
            || t.kind(owner) == "enum_declaration"@ || t.kind(owner) == "extension_declaration"@,
        t.child_of_kind(owner, "mixin_application_class"@) is None
            && t.child(owner, "name"@) == Some(m)
            || (t.child_of_kind(owner, "mixin_application_class"@) matches Some(a) && t.child_of_kind(a, "identifier"@) == Some(m)),
        t.child(owner, "body"@) == Some(body),
        t.has_child(body, w),
        t.kind(w) == "class_member"@,
        t.has_child(w, i),
        t.kind(i) == "declaration"@,
        t.has_child(i, s),
        is_signed(t, s, n),
    ensures
        defines_as(
            facts_of(t, file, found, on_self),
            t,
            s,
            t.text(n),
            SymbolKind::Method,
            shown(t.text(n)),
        ),
        defines_in(facts_of(t, file, found, on_self), t, owner, s, t.text(n), SymbolKind::Method),
{
    member_symbols_kinds();
    let c = context(t, file);
    let prefix = steps(t, file);
    let outer = members_are_placed(c, prefix, owner, m, body);
    let at = outer.id;
    visibility_is_shown(t.text(n));
    reached_is_behind(t, body + 1, t.after(body), w);
    reached_is_behind(t, w + 1, t.after(w), i);
    let x = definition(c, at, s, method_view(t.text(n)), SymbolKind::Method, "{;="@);
    assert(method_symbols(c, at, signature_name(t, s), s)[0] == x);
    signed_in_has(c, at, i + 1, t.after(i), s, x);
    in_either(
        signed_in(c, at, i + 1, t.after(i)),
        variable_lists_in(c, at, i, i + 1, t.after(i)),
        x,
    );
    wrapped_in_has(c, at, w + 1, t.after(w), i, x);
    members_in_has(c, at, body + 1, t.after(body), w, x);
    starts_with(facts_of(t, file, found, on_self).symbols, symbols_in(c, prefix, 1, t.after(0)), x);
    starts_with(
        facts_of(t, file, found, on_self).symbols,
        symbols_in(c, prefix, 1, t.after(0)),
        outer,
    );
    assert(x.id =~= outer.id.push(x.id.last()));
}

/// Each variable of a declaration in a type at the top of a Dart file is a
/// static variable at the declaration.
pub proof fn fields_are_defined(
    t: Syntax,
    file: Seq<char>,
    found: Seq<Seq<CaptureView>>,
    on_self: Seq<Seq<CaptureView>>,
    owner: int,
    m: int,
    body: int,
    w: int,
    i: int,
    list: int,
    d: int,
    n: int,
)
    requires
        t.has_child(0, owner),
        t.kind(owner) == "class_declaration"@ || t.kind(owner) == "mixin_declaration"@
            || t.kind(owner) == "enum_declaration"@ || t.kind(owner) == "extension_declaration"@,
        t.child_of_kind(owner, "mixin_application_class"@) is None
            && t.child(owner, "name"@) == Some(m)
            || (t.child_of_kind(owner, "mixin_application_class"@) matches Some(a) && t.child_of_kind(a, "identifier"@) == Some(m)),
        t.child(owner, "body"@) == Some(body),
        t.has_child(body, w),
        t.kind(w) == "class_member"@,
        t.has_child(w, i),
        t.kind(i) == "declaration"@,
        t.has_child(i, list),
        t.kind(list) == "initialized_identifier_list"@
            || t.kind(list) == "static_final_declaration_list"@
            || t.kind(list) == "identifier_list"@,
        t.has_child(list, d),
        (t.kind(d) == "identifier"@ && n == d)
            || ((t.kind(d) == "initialized_identifier"@ || t.kind(d) == "static_final_declaration"@) && t.child(d, "name"@) == Some(n)),
    ensures
        defines_as(
            facts_of(t, file, found, on_self),
            t,
            i,
            t.text(n),
            SymbolKind::Static,
            shown(t.text(n)),
        ),
        defines_in(facts_of(t, file, found, on_self), t, owner, i, t.text(n), SymbolKind::Static),
{
    member_symbols_kinds();
    variable_name_kinds();
    let c = context(t, file);
    let prefix = steps(t, file);
    let outer = members_are_placed(c, prefix, owner, m, body);
    let at = outer.id;
    visibility_is_shown(t.text(n));
    reached_is_behind(t, body + 1, t.after(body), w);
    reached_is_behind(t, w + 1, t.after(w), i);
    let x = definition(c, at, i, DescriptorView::Term(t.text(n)), SymbolKind::Static, "{;"@);
    reached_is_behind(t, i + 1, t.after(i), list);
    reached_is_behind(t, list + 1, t.after(list), d);
    assert(variable_symbols(c, at, i, d)[0] == x);
    variables_in_has(c, at, i, list + 1, t.after(list), d, x);
    variable_lists_in_has(c, at, i, i + 1, t.after(i), list, x);
    in_either(
        signed_in(c, at, i + 1, t.after(i)),
        variable_lists_in(c, at, i, i + 1, t.after(i)),
        x,
    );
    wrapped_in_has(c, at, w + 1, t.after(w), i, x);
    members_in_has(c, at, body + 1, t.after(body), w, x);
    starts_with(facts_of(t, file, found, on_self).symbols, symbols_in(c, prefix, 1, t.after(0)), x);
    starts_with(
        facts_of(t, file, found, on_self).symbols,
        symbols_in(c, prefix, 1, t.after(0)),
        outer,
    );
    assert(x.id =~= outer.id.push(x.id.last()));
}

proof fn type_names_at_reaches(
    t: Syntax,
    file: Seq<char>,
    role: RefRole,
    i: int,
    j: int,
    x: ReferenceView,
)
    requires
        t.nested(),
        t.has(i),
        i <= j < t.after(i),
        forall|k: int| i <= k < j && j < #[trigger] t.after(k)
            ==> !(t.kind(k) == "type_identifier"@),
        type_name_ref(t, file, role, j).contains(x),
    ensures
        type_names_at(t, file, role, i).contains(x),
    decreases t.left(i), 0nat,
{
    if i == j {
        in_either(
            type_name_ref(t, file, role, i),
            type_names_in(t, file, role, i + 1, t.after(i)),
            x,
        );
    } else {
        assert(i < t.after(i));
        type_names_in_reaches(t, file, role, i + 1, t.after(i), j, x);
        in_either(
            type_name_ref(t, file, role, i),
            type_names_in(t, file, role, i + 1, t.after(i)),
            x,
        );
    }
}

proof fn type_names_in_reaches(
    t: Syntax,
    file: Seq<char>,
    role: RefRole,
    lo: int,
    hi: int,
    j: int,
    x: ReferenceView,
)
    requires
        t.nested(),
        t.closed_range(lo, hi),
        lo <= j < hi,
        forall|k: int| lo <= k < j && j < #[trigger] t.after(k)
            ==> !(t.kind(k) == "type_identifier"@),
        type_name_ref(t, file, role, j).contains(x),
    ensures
        type_names_in(t, file, role, lo, hi).contains(x),
    decreases t.left(lo), 1nat,
{
    if j < t.after(lo) {
        type_names_at_reaches(t, file, role, lo, j, x);
    } else {
        type_names_in_reaches(t, file, role, t.next(lo, hi), hi, j, x);
    }
    in_either(
        type_names_at(t, file, role, lo),
        type_names_in(t, file, role, t.next(lo, hi), hi),
        x,
    );
}

proof fn type_name_is_found(t: Syntax, file: Seq<char>, role: RefRole, ty: int, n: int)
    requires
        t.nested(),
        t.has(ty),
        ty <= n < t.after(ty),
        t.kind(n) == "type_identifier"@,
        forall|k: int| ty <= k < n && n < #[trigger] t.after(k) ==> t.kind(k) != "type_identifier"@,
    ensures
        type_names_at(t, file, role, ty).contains(reference_at(t, file, n, t.text(n), role)),
{
    let x = reference_at(t, file, n, t.text(n), role);
    assert(type_name_ref(t, file, role, n)[0] == x);
    type_names_at_reaches(t, file, role, ty, n, x);
}

proof fn on_type_is_found(
    t: Syntax,
    file: Seq<char>,
    lo: int,
    hi: int,
    seen: bool,
    on: int,
    ty: int,
    x: ReferenceView,
)
    requires
        t.reaches(lo, hi, ty),
        t.kind(ty) == "type"@,
        seen || (t.reaches(lo, hi, on) && t.kind(on) == "on"@ && on < ty),
        forall|c: int| #[trigger] t.reaches(lo, hi, c) && c < ty ==> t.kind(c) != "class_body"@,
        type_names_at(t, file, RefRole::IsImplementation, ty).contains(x),
    ensures
        on_types_in(t, file, lo, hi, seen).contains(x),
    decreases hi - lo,
{
    reveal_strlit("on");
    reveal_strlit("type");
    assert("on"@.len() != "type"@.len());
    let next = t.next(lo, hi);
    let rest = on_types_in(t, file, next, hi, seen);
    if lo == ty {
        if !seen {
            reached_is_behind(t, lo, hi, on);
        }
        in_either(type_names_at(t, file, RefRole::IsImplementation, lo), rest, x);
    } else {
        reached_is_behind(t, next, hi, ty);
        assert(t.reaches(lo, hi, lo));
        assert forall|c: int| #[trigger] t.reaches(next, hi, c) && c < ty implies t.kind(c) != "class_body"@ by {
            assert(t.reaches(lo, hi, c));
        }
        on_type_is_found(t, file, next, hi, seen || t.kind(lo) == "on"@, on, ty, x);
        if t.kind(lo) == "type"@ && seen {
            in_either(type_names_at(t, file, RefRole::IsImplementation, lo), rest, x);
        }
    }
}

/// A mixin implements each type name in the types between its `on` and its
/// body.
pub proof fn required_types_are_implemented(
    t: Syntax,
    file: Seq<char>,
    found: Seq<Seq<CaptureView>>,
    on_self: Seq<Seq<CaptureView>>,
    i: int,
    on: int,
    ty: int,
    n: int,
)
    requires
        t.nested(),
        0 <= i < t.after(0),
        t.kind(i) == "mixin_declaration"@,
        t.has_child(i, on),
        t.kind(on) == "on"@,
        t.has_child(i, ty),
        t.kind(ty) == "type"@,
        on < ty,
        forall|c: int| #[trigger] t.has_child(i, c) && c < ty ==> t.kind(c) != "class_body"@,
        ty <= n < t.after(ty),
        t.kind(n) == "type_identifier"@,
        forall|k: int| ty <= k < n && n < #[trigger] t.after(k) ==> t.kind(k) != "type_identifier"@,
    ensures
        refers(facts_of(t, file, found, on_self), t, n, t.text(n), RefRole::IsImplementation),
{
    declared_bases_kinds();
    let r = reference_at(t, file, n, t.text(n), RefRole::IsImplementation);
    reached_is_behind(t, i + 1, t.after(i), ty);
    type_name_is_found(t, file, RefRole::IsImplementation, ty, n);
    assert forall|c: int| #[trigger] t.reaches(i + 1, t.after(i), c) && c < ty implies t.kind(c) != "class_body"@ by {
        assert(t.has_child(i, c));
    }
    on_type_is_found(t, file, i + 1, t.after(i), false, on, ty, r);
    in_either(
        on_types_in(t, file, i + 1, t.after(i), false),
        bases_under(t, file, "interfaces"@, i),
        r,
    );
    let x = reference_at(t, file, n, t.text(n), RefRole::IsImplementation);
    inherits_reported(t, file, found, on_self, i, x);
}

/// A class implements each type name in its superclass and its interfaces, a
/// mixin each one in its interfaces.
pub proof fn bases_are_implemented(
    t: Syntax,
    file: Seq<char>,
    found: Seq<Seq<CaptureView>>,
    on_self: Seq<Seq<CaptureView>>,
    i: int,
    ty: int,
    n: int,
)
    requires
        t.nested(),
        0 <= i < t.after(0),
        (t.kind(i) == "class_declaration"@ && (t.child(i, "superclass"@) == Some(ty) || t.child(i, "interfaces"@) == Some(ty)))
            || (t.kind(i) == "mixin_declaration"@ && t.child(i, "interfaces"@) == Some(ty)),
        ty <= n < t.after(ty),
        t.kind(n) == "type_identifier"@,
        forall|k: int| ty <= k < n && n < #[trigger] t.after(k) ==> t.kind(k) != "type_identifier"@,
    ensures
        refers(facts_of(t, file, found, on_self), t, n, t.text(n), RefRole::IsImplementation),
{
    declared_bases_kinds();
    let r = reference_at(t, file, n, t.text(n), RefRole::IsImplementation);
    type_name_is_found(t, file, RefRole::IsImplementation, ty, n);
    in_either(bases_under(t, file, "superclass"@, i), bases_under(t, file, "interfaces"@, i), r);
    in_either(
        on_types_in(t, file, i + 1, t.after(i), false),
        bases_under(t, file, "interfaces"@, i),
        r,
    );
    let x = reference_at(t, file, n, t.text(n), RefRole::IsImplementation);
    inherits_reported(t, file, found, on_self, i, x);
}

/// Whether a type name is none of those that the language has by itself.
pub open spec fn is_foreign(name: Seq<char>) -> bool {
    &&& name != "int"@
    &&& name != "double"@
    &&& name != "num"@
    &&& name != "bool"@
    &&& name != "String"@
    &&& name != "Object"@
    &&& name != "dynamic"@
    &&& name != "Never"@
}

/// A signature refers to the type name that it returns, unless the language has
/// the type by itself.
pub proof fn returned_types_are_referred_to(
    t: Syntax,
    file: Seq<char>,
    found: Seq<Seq<CaptureView>>,
    on_self: Seq<Seq<CaptureView>>,
    i: int,
    ty: int,
    n: int,
)
    requires
        t.nested(),
        0 <= i < t.after(0),
        signs(t, i),
        t.child(i, "return_type"@) == Some(ty),
        (t.kind(ty) == "type_identifier"@ && n == ty)
            || (t.kind(ty) == "type"@ && t.has_child(ty, n) && t.named(n) && t.kind(n) == "type_identifier"@),
        is_foreign(t.text(n)),
    ensures
        refers_to_type(
            facts_of(t, file, found, on_self),
            t,
            n,
            t.text(n),
            TypeRefContext::ReturnType,
        ),
{
    own_type_refs_kinds();
    leaves_at_kinds();
    is_signature_kinds();
    let r = type_reference_at(t, file, n, t.text(n), TypeRefContext::ReturnType);
    assert(leaves_at(t, file, TypeRefContext::ReturnType, n)[0] == r);
    if n != ty {
        leaves_in_has(t, file, TypeRefContext::ReturnType, ty + 1, t.after(ty), n, r);
        assert(leaves_at(t, file, TypeRefContext::ReturnType, ty) == leaves_in(
            t,
            file,
            TypeRefContext::ReturnType,
            ty + 1,
            t.after(ty),
        ));
    }
    let x = type_reference_at(t, file, n, t.text(n), TypeRefContext::ReturnType);
    type_refs_reported(t, file, found, on_self, i, x);
}

/// A parameter refers to the type names in its type, unless the language has
/// them by itself.
pub proof fn parameter_types_are_referred_to(
    t: Syntax,
    file: Seq<char>,
    found: Seq<Seq<CaptureView>>,
    on_self: Seq<Seq<CaptureView>>,
    i: int,
    ty: int,
    n: int,
)
    requires
        t.nested(),
        0 <= i < t.after(0),
        t.kind(i) == "formal_parameter"@,
        t.child_of_kind(i, "type"@) == Some(ty),
        (t.kind(ty) == "type_identifier"@ && n == ty)
            || (t.kind(ty) == "type"@ && t.has_child(ty, n) && t.named(n) && t.kind(n) == "type_identifier"@),
        is_foreign(t.text(n)),
    ensures
        refers_to_type(
            facts_of(t, file, found, on_self),
            t,
            n,
            t.text(n),
            TypeRefContext::ParameterType,
        ),
{
    own_type_refs_kinds();
    leaves_at_kinds();
    is_signature_kinds();
    let r = type_reference_at(t, file, n, t.text(n), TypeRefContext::ParameterType);
    assert(leaves_at(t, file, TypeRefContext::ParameterType, n)[0] == r);
    if n != ty {
        leaves_in_has(t, file, TypeRefContext::ParameterType, ty + 1, t.after(ty), n, r);
        assert(leaves_at(t, file, TypeRefContext::ParameterType, ty) == leaves_in(
            t,
            file,
            TypeRefContext::ParameterType,
            ty + 1,
            t.after(ty),
        ));
    }
    let x = type_reference_at(t, file, n, t.text(n), TypeRefContext::ParameterType);
    type_refs_reported(t, file, found, on_self, i, x);
}

/// A variable at the top of a file or a field refers to the type names in its
/// type, unless the language has them by itself.
pub proof fn variable_types_are_referred_to(
    t: Syntax,
    file: Seq<char>,
    found: Seq<Seq<CaptureView>>,
    on_self: Seq<Seq<CaptureView>>,
    i: int,
    ty: int,
    n: int,
)
    requires
        t.nested(),
        0 <= i < t.after(0),
        t.kind(i) == "top_level_variable_declaration"@ || t.kind(i) == "declaration"@,
        t.child_of_kind(i, "type"@) == Some(ty),
        (t.kind(ty) == "type_identifier"@ && n == ty)
            || (t.kind(ty) == "type"@ && t.has_child(ty, n) && t.named(n) && t.kind(n) == "type_identifier"@),
        is_foreign(t.text(n)),
    ensures
        refers_to_type(facts_of(t, file, found, on_self), t, n, t.text(n), TypeRefContext::Field),
{
    own_type_refs_kinds();
    leaves_at_kinds();
    is_signature_kinds();
    let r = type_reference_at(t, file, n, t.text(n), TypeRefContext::Field);
    assert(leaves_at(t, file, TypeRefContext::Field, n)[0] == r);
    if n != ty {
        leaves_in_has(t, file, TypeRefContext::Field, ty + 1, t.after(ty), n, r);
        assert(leaves_at(t, file, TypeRefContext::Field, ty) == leaves_in(
            t,
            file,
            TypeRefContext::Field,
            ty + 1,
            t.after(ty),
        ));
    }
    let x = type_reference_at(t, file, n, t.text(n), TypeRefContext::Field);
    type_refs_reported(t, file, found, on_self, i, x);
}

/// Whether a node in a type is of another shape: it is called by its own text.
pub open spec fn is_other_shape(t: Syntax, n: int) -> bool {
    t.kind(n) != "type_identifier"@ && t.kind(n) != "type"@ && t.kind(n) != "void_type"@
        && simple_name(t.text(n), "."@).len() > 0
}

/// A type of another shape in what a signature returns, in a parameter, in a
/// variable or in a field is referred to by its own text, without arguments and
/// qualifiers.
pub proof fn other_types_are_referred_to(
    t: Syntax,
    file: Seq<char>,
    found: Seq<Seq<CaptureView>>,
    on_self: Seq<Seq<CaptureView>>,
    i: int,
    ty: int,
    n: int,
    position: TypeRefContext,
)
    requires
        t.nested(),
        0 <= i < t.after(0),
        (signs(t, i) && t.child(i, "return_type"@) == Some(ty) && position == TypeRefContext::ReturnType)
            || (t.kind(i) == "formal_parameter"@ && t.child_of_kind(i, "type"@) == Some(ty) && position == TypeRefContext::ParameterType)
            || ((t.kind(i) == "top_level_variable_declaration"@ || t.kind(i) == "declaration"@) && t.child_of_kind(i, "type"@) == Some(ty) && position == TypeRefContext::Field),
        n == ty || (t.kind(ty) == "type"@ && t.has_child(ty, n) && t.named(n)),
        is_other_shape(t, n),
    ensures
        refers_to_type(
            facts_of(t, file, found, on_self),
            t,
            n,
            simple_name(t.text(n), "."@),
            position,
        ),
{
    own_type_refs_kinds();
    leaves_at_kinds();
    is_signature_kinds();
    let r = type_reference_at(t, file, n, simple_name(t.text(n), "."@), position);
    if n != ty {
        reached_is_behind(t, ty + 1, t.after(ty), n);
    }
    assert(leaves_at(t, file, position, n)[0] == r);
    if n != ty {
        leaves_in_has(t, file, position, ty + 1, t.after(ty), n, r);
        assert(leaves_at(t, file, position, ty) == leaves_in(
            t,
            file,
            position,
            ty + 1,
            t.after(ty),
        ));
    }
    let x = type_reference_at(t, file, n, simple_name(t.text(n), "."@), position);
    type_refs_reported(t, file, found, on_self, i, x);
}

/// An assignment, whatever its operator, writes the identifier on its left,
/// which may stand alone in an assignable expression.
pub proof fn assignments_write(
    t: Syntax,
    file: Seq<char>,
    found: Seq<Seq<CaptureView>>,
    on_self: Seq<Seq<CaptureView>>,
    i: int,
    left: int,
    n: int,
)
    requires
        t.nested(),
        0 <= i < t.after(0),
        t.kind(i) == "assignment_expression"@,
        t.child(i, "left"@) == Some(left),
        t.kind(n) == "identifier"@,
        n == left
            || (t.kind(left) == "assignable_expression"@ && n == left + 1 && t.after(left) == left + 2 && !t.in_field(n, "object"@)),
        long_enough(t.text(n)),
    ensures
        refers(facts_of(t, file, found, on_self), t, n, t.text(n), RefRole::Write),
{
    written_kinds();
    if n != left {
        assert(t.first_in_field(n + 1, n + 1, "object"@) is None);
        assert(t.child(left, "object"@) is None);
        assert(identifiers_in(t, n + 1, n + 1) == 0);
        assert(identifiers_in(t, n, n + 1) == 1);
    }
    let x = reference_at(t, file, n, t.text(n), RefRole::Write);
    assert(write_of(t, file, i)[0] == x);
    writes_reported(t, file, found, on_self, i, x);
}

/// An identifier is read unless it is called, assigned to, a property, the name
/// of something, or introduced by its parent.
pub proof fn values_are_read(
    t: Syntax,
    file: Seq<char>,
    found: Seq<Seq<CaptureView>>,
    on_self: Seq<Seq<CaptureView>>,
    i: int,
    p: int,
)
    requires
        t.nested(),
        0 <= i < t.after(0),
        t.kind(i) == "identifier"@,
        long_enough(t.text(i)),
        t.parent(i) == Some(p),
        !(t.in_field(i, "function"@) && t.kind(p) == "call_expression"@),
        !t.in_field(i, "name"@),
        !t.in_field(i, "property"@),
        !(t.in_field(i, "left"@) && t.kind(p) == "assignment_expression"@),
        !(t.kind(p) == "assignable_expression"@ && t.in_field(p, "left"@)),
        t.kind(p) != "formal_parameter"@,
        t.kind(p) != "constructor_param"@,
        t.kind(p) != "super_formal_parameter"@,
        t.kind(p) != "identifier_list"@,
        t.kind(p) != "mixin_application_class"@,
        t.kind(p) != "catch_clause"@,
        t.kind(p) != "import_specification"@,
        t.kind(p) != "combinator"@,
        forall|j: int, k: int| t.has(j) && t.kind(j) == "identifier"@
            && j < k < #[trigger] t.after(j)
            ==> #[trigger] t.kind(k) != "identifier"@,
    ensures
        refers(facts_of(t, file, found, on_self), t, i, t.text(i), RefRole::Read),
{
    child_stands_in_field(t, p, "function"@);
    child_stands_in_field(t, p, "property"@);
    child_stands_in_field(t, p, "left"@);
    if let Some(q) = t.parent(p) {
        child_stands_in_field(t, q, "left"@);
    }
    let x = reference_at(t, file, i, t.text(i), RefRole::Read);
    assert(read_of(t, file, i)[0] == x);
    reads_reported(t, file, found, on_self, i, x);
}

/// Each parameter with a name of a function or a method is bound in the
/// innermost scope at its place. It has the type that it is declared with.
pub proof fn parameters_are_bound(
    t: Syntax,
    file: Seq<char>,
    found: Seq<Seq<CaptureView>>,
    on_self: Seq<Seq<CaptureView>>,
    i: int,
    s: int,
    f: int,
    list: int,
    p: int,
    n: int,
)
    requires
        t.nested(),
        0 <= i < t.after(0),
        t.kind(i) == "function_declaration"@ || t.kind(i) == "method_declaration"@,
        t.child(i, "signature"@) == Some(s),
        (f == s && t.child_of_kind(s, "function_signature"@) is None)
            || t.child_of_kind(s, "function_signature"@) == Some(f),
        t.child(f, "parameters"@) == Some(list),
        t.has_child(list, p),
        t.named(p),
        t.kind(p) == "formal_parameter"@,
        t.child(p, "name"@) == Some(n),
        facts_of(t, file, found, on_self).scopes.len() <= usize::MAX,
    ensures
        binds(facts_of(t, file, found, on_self), t.text(n), t.start(p), BindingKind::Param),
        t.child_of_kind(p, "type"@) matches Some(ty)
            ==> binds_as(
                facts_of(t, file, found, on_self),
                t.text(n),
                t.start(p),
                BindingKind::Param,
                simple_name(t.text(ty), "."@),
            ),
{
    introduced_kinds();
    let b = local_binding(
        facts_of(t, file, found, on_self).scopes,
        t.text(n),
        t.start(p),
        BindingKind::Param,
        written_type(t, p),
    );
    assert(param_at(t, facts_of(t, file, found, on_self).scopes, p)[0] == b);
    params_in_has(t, facts_of(t, file, found, on_self).scopes, list + 1, t.after(list), p, b);
    let scopes = facts_of(t, file, found, on_self).scopes;
    let x = local_binding(scopes, t.text(n), t.start(p), BindingKind::Param, written_type(t, p));
    bindings_reported(t, file, found, on_self, i, x);
    local_is_bound(
        facts_of(t, file, found, on_self),
        t.text(n),
        t.start(p),
        BindingKind::Param,
        written_type(t, p),
    );
}

/// Each variable that is declared inside a function and has a name that is long
/// enough is bound in the innermost scope at its place, be it the first of its
/// declaration or a further one. It has the type that it is declared with.
pub proof fn locals_are_bound(
    t: Syntax,
    file: Seq<char>,
    found: Seq<Seq<CaptureView>>,
    on_self: Seq<Seq<CaptureView>>,
    i: int,
    d: int,
    v: int,
    n: int,
)
    requires
        t.nested(),
        0 <= i < t.after(0),
        t.kind(i) == "local_variable_declaration"@,
        t.has_child(i, d),
        t.kind(d) == "initialized_variable_definition"@,
        v == d || (t.has_child(d, v) && t.named(v) && t.kind(v) == "initialized_identifier"@),
        t.child(v, "name"@) == Some(n),
        long_enough(t.text(n)),
        !outside_code(facts_of(t, file, found, on_self).scopes, t.start(n)),
        facts_of(t, file, found, on_self).scopes.len() <= usize::MAX,
    ensures
        binds(facts_of(t, file, found, on_self), t.text(n), t.start(n), BindingKind::Local),
        t.child_of_kind(d, "type"@) matches Some(ty)
            ==> binds_as(
                facts_of(t, file, found, on_self),
                t.text(n),
                t.start(n),
                BindingKind::Local,
                simple_name(t.text(ty), "."@),
            ),
{
    introduced_kinds();
    if at_file_level(facts_of(t, file, found, on_self).scopes, t.start(n)) {
        file_level_is_outside(facts_of(t, file, found, on_self).scopes, t.start(n));
    }
    let b = local_binding(
        facts_of(t, file, found, on_self).scopes,
        t.text(n),
        t.start(n),
        BindingKind::Local,
        written_type(t, d),
    );
    reached_is_behind(t, i + 1, t.after(i), d);
    assert(local_at(t, facts_of(t, file, found, on_self).scopes, d, v)[0] == b);
    if v != d {
        more_locals_in_has(t, facts_of(t, file, found, on_self).scopes, d, d + 1, t.after(d), v, b);
    }
    in_either(
        local_at(t, facts_of(t, file, found, on_self).scopes, d, d),
        more_locals_in(t, facts_of(t, file, found, on_self).scopes, d, d + 1, t.after(d)),
        b,
    );
    definitions_in_has(t, facts_of(t, file, found, on_self).scopes, i + 1, t.after(i), d, b);
    let scopes = facts_of(t, file, found, on_self).scopes;
    let x = local_binding(scopes, t.text(n), t.start(n), BindingKind::Local, written_type(t, d));
    bindings_reported(t, file, found, on_self, i, x);
    local_is_bound(
        facts_of(t, file, found, on_self),
        t.text(n),
        t.start(n),
        BindingKind::Local,
        written_type(t, d),
    );
}

/// Whether the uri `u` is the text `path` between quotes: the first string literal
/// in it is.
pub open spec fn quotes(t: Syntax, u: int, s: int, path: Seq<char>) -> bool {
    &&& u <= s < t.after(u)
    &&& t.kind(s) == "string_literal"@
    &&& forall|k: int| u <= k < s ==> #[trigger] t.kind(k) != "string_literal"@
    &&& t.text(s) == seq!['\''] + path + seq!['\''] || t.text(s) == seq!['"'] + path + seq!['"']
}

proof fn quoted_is_plain(path: Seq<char>)
    ensures
        plain(seq!['\''] + path + seq!['\'']) == path,
        plain(seq!['"'] + path + seq!['"']) == path,
{
    reveal_strlit("'");
    reveal_strlit("\"");
    assert(seq!['\''] =~= "'"@);
    assert(seq!['"'] =~= "\""@);
    quotes_are_taken_off("'"@, path);
    quotes_are_taken_off("\""@, path);
    let double = "\""@ + path + "\""@;
    assert(double.subrange(0, 1)[0] != "'"@[0]);
}

proof fn first_string(t: Syntax, i: int, s: int)
    requires
        t.nested(),
        t.has(i),
        i <= s < t.after(i),
        t.kind(s) == "string_literal"@,
        forall|k: int| i <= k < s ==> #[trigger] t.kind(k) != "string_literal"@,
    ensures
        string_at(t, i) == Some(t.text(s)),
    decreases t.left(i), 0nat,
{
    if i != s {
        first_string_in(t, i + 1, t.after(i), s);
    }
}

proof fn first_string_in(t: Syntax, lo: int, hi: int, s: int)
    requires
        t.nested(),
        t.closed_range(lo, hi),
        lo <= s < hi,
        t.kind(s) == "string_literal"@,
        forall|k: int| lo <= k < s ==> #[trigger] t.kind(k) != "string_literal"@,
    ensures
        string_in(t, lo, hi) == Some(t.text(s)),
    decreases t.left(lo), 1nat,
{
    if s < t.after(lo) {
        first_string(t, lo, s);
    } else {
        no_string(t, lo, t.after(lo));
        first_string_in(t, t.next(lo, hi), hi, s);
    }
}

proof fn no_string(t: Syntax, i: int, end: int)
    requires
        t.nested(),
        t.has(i),
        end == t.after(i),
        forall|k: int| i <= k < end ==> #[trigger] t.kind(k) != "string_literal"@,
    ensures
        string_at(t, i) is None,
    decreases t.left(i), 0nat,
{
    no_string_in(t, i + 1, end);
}

proof fn no_string_in(t: Syntax, lo: int, hi: int)
    requires
        t.nested(),
        t.closed_range(lo, hi),
        forall|k: int| lo <= k < hi ==> #[trigger] t.kind(k) != "string_literal"@,
    ensures
        string_in(t, lo, hi) is None,
    decreases t.left(lo), 1nat,
{
    if lo < hi {
        no_string(t, lo, t.after(lo));
        no_string_in(t, t.next(lo, hi), hi);
    }
}

/// Whether a combinator shows names: the first of its keywords says so.
pub open spec fn shows(t: Syntax, c: int) -> bool {
    t.kind(c) == "combinator"@ && exists|w: int| #[trigger] t.has_child(c, w)
        && t.kind(w) == "show"@ && forall|e: int| #[trigger] t.has_child(c, e) && e < w
        ==> t.kind(e) != "show"@ && t.kind(e) != "hide"@
}

proof fn show_is_first(t: Syntax, lo: int, hi: int)
    ensures
        shows_in(t, lo, hi) <==> exists|w: int| #[trigger] t.reaches(lo, hi, w)
            && t.kind(w) == "show"@ && forall|e: int| #[trigger] t.reaches(lo, hi, e) && e < w
            ==> t.kind(e) != "show"@ && t.kind(e) != "hide"@,
    decreases hi - lo,
{
    reveal_strlit("show");
    reveal_strlit("hide");
    assert("show"@[0] != "hide"@[0]);
    if lo < hi {
        let next = t.next(lo, hi);
        show_is_first(t, next, hi);
        assert(t.reaches(lo, hi, lo));
        if t.kind(lo) == "show"@ {
            assert forall|e: int| #[trigger] t.reaches(lo, hi, e) && e < lo implies t.kind(e) != "show"@ && t.kind(e) != "hide"@ by {
                reached_is_behind(t, lo, hi, e);
            }
        } else if t.kind(lo) == "hide"@ {
            assert forall|w: int| #[trigger] t.reaches(lo, hi, w) && t.kind(w) == "show"@ implies exists|e: int| #[trigger] t.reaches(lo, hi, e) && e < w && (t.kind(e) == "show"@ || t.kind(e) == "hide"@) by {
                reached_is_behind(t, lo, hi, w);
                assert(t.reaches(lo, hi, lo) && lo < w);
            }
        } else {
            if shows_in(t, next, hi) {
                let w = choose|w: int| #[trigger] t.reaches(next, hi, w) && t.kind(w) == "show"@
                    && forall|e: int| #[trigger] t.reaches(next, hi, e) && e < w
                    ==> t.kind(e) != "show"@ && t.kind(e) != "hide"@;
                assert(t.reaches(lo, hi, w));
                assert forall|e: int| #[trigger] t.reaches(lo, hi, e) && e < w implies t.kind(e) != "show"@ && t.kind(e) != "hide"@ by {
                    if e != lo {
                        assert(t.reaches(next, hi, e));
                    }
                }
            }
            if exists|w: int| #[trigger] t.reaches(lo, hi, w) && t.kind(w) == "show"@
                && forall|e: int| #[trigger] t.reaches(lo, hi, e) && e < w
                ==> t.kind(e) != "show"@ && t.kind(e) != "hide"@ {
                let w = choose|w: int| #[trigger] t.reaches(lo, hi, w) && t.kind(w) == "show"@
                    && forall|e: int| #[trigger] t.reaches(lo, hi, e) && e < w
                    ==> t.kind(e) != "show"@ && t.kind(e) != "hide"@;
                assert(t.reaches(next, hi, w));
                assert forall|e: int| #[trigger] t.reaches(next, hi, e) && e < w implies t.kind(e) != "show"@ && t.kind(e) != "hide"@ by {
                    assert(t.reaches(lo, hi, e));
                }
            }
        }
    }
}

proof fn show_is_shown(t: Syntax, c: int)
    requires
        t.has(c),
    ensures
        is_show(t, c) == shows(t, c),
{
    show_is_first(t, c + 1, t.after(c));
    let hi = t.after(c);
    if is_show(t, c) {
        let w = choose|w: int| #[trigger] t.reaches(c + 1, hi, w) && t.kind(w) == "show"@
            && forall|e: int| #[trigger] t.reaches(c + 1, hi, e) && e < w
            ==> t.kind(e) != "show"@ && t.kind(e) != "hide"@;
        assert(t.has_child(c, w));
        assert forall|e: int| #[trigger] t.has_child(c, e) && e < w implies t.kind(e) != "show"@ && t.kind(e) != "hide"@ by {
            assert(t.reaches(c + 1, hi, e));
        }
    }
    if shows(t, c) {
        let w = choose|w: int| #[trigger] t.has_child(c, w) && t.kind(w) == "show"@
            && forall|e: int| #[trigger] t.has_child(c, e) && e < w
            ==> t.kind(e) != "show"@ && t.kind(e) != "hide"@;
        assert(t.reaches(c + 1, hi, w));
        assert forall|e: int| #[trigger] t.reaches(c + 1, hi, e) && e < w implies t.kind(e) != "show"@ && t.kind(e) != "hide"@ by {
            assert(t.has_child(c, e));
        }
    }
}

proof fn show_is_any(t: Syntax, lo: int, hi: int, c: int)
    requires
        t.reaches(lo, hi, c),
        is_show(t, c),
    ensures
        any_show_in(t, lo, hi),
    decreases hi - lo,
{
    if lo != c {
        show_is_any(t, t.next(lo, hi), hi, c);
    }
}

proof fn none_is_shown(t: Syntax, lo: int, hi: int)
    requires
        forall|c: int| #[trigger] t.reaches(lo, hi, c) ==> !is_show(t, c),
    ensures
        !any_show_in(t, lo, hi),
    decreases hi - lo,
{
    if lo < hi {
        assert(t.reaches(lo, hi, lo));
        assert forall|c: int| #[trigger] t.reaches(t.next(lo, hi), hi, c) implies !is_show(t, c) by {
            assert(t.reaches(lo, hi, c));
        }
        none_is_shown(t, t.next(lo, hi), hi);
    }
}

proof fn last_identifier_is(t: Syntax, lo: int, hi: int, found: Option<int>, n: int)
    requires
        (t.reaches(lo, hi, n) && t.kind(n) == "identifier"@ && forall|e: int| #[trigger] t.reaches(lo, hi, e) && n < e ==> t.kind(e) != "identifier"@)
            || (found == Some(n) && forall|e: int| #[trigger] t.reaches(lo, hi, e) ==> t.kind(e) != "identifier"@),
    ensures
        last_identifier_in(t, lo, hi, found) == Some(n),
    decreases hi - lo,
{
    if lo < hi {
        let next = t.next(lo, hi);
        assert(t.reaches(lo, hi, lo));
        assert forall|e: int| #[trigger] t.reaches(next, hi, e) implies t.reaches(lo, hi, e) && lo < e by {
            reached_is_behind(t, next, hi, e);
        }
        if t.reaches(lo, hi, n) && lo < n {
            assert(t.reaches(next, hi, n));
        }
        if t.reaches(lo, hi, n) {
            reached_is_behind(t, lo, hi, n);
        }
        last_identifier_is(
            t,
            next,
            hi,
            if t.kind(lo) == "identifier"@ { Some(lo) } else { found },
            n,
        );
    }
}

/// An import that shows names imports each of them, from the path between the
/// quotes of its uri.
pub proof fn shown_names_are_imported(
    t: Syntax,
    file: Seq<char>,
    found: Seq<Seq<CaptureView>>,
    on_self: Seq<Seq<CaptureView>>,
    i: int,
    l: int,
    p: int,
    u: int,
    s: int,
    path: Seq<char>,
    c: int,
    n: int,
)
    requires
        t.nested(),
        0 <= i < t.after(0),
        t.kind(i) == "import_or_export"@,
        t.has_child(i, l),
        t.kind(l) == "library_import"@,
        t.has_child(l, p),
        t.kind(p) == "import_specification"@,
        t.child(p, "uri"@) == Some(u),
        quotes(t, u, s, path),
        t.has_child(p, c),
        shows(t, c),
        t.has_child(c, n),
        t.kind(n) == "identifier"@,
        forall|j: int, k: int| t.has(j) && t.kind(j) == "import_or_export"@
            && j < k < #[trigger] t.after(j)
            ==> #[trigger] t.kind(k) != "import_or_export"@,
    ensures
        imports(
            facts_of(t, file, found, on_self),
            t,
            n,
            t.text(n),
            if path.len() > 0 { Some(path) } else { None },
        ),
{
    reached_is_behind(t, i + 1, t.after(i), l);
    reached_is_behind(t, l + 1, t.after(l), p);
    quoted_is_plain(path);
    first_string(t, u, s);
    assert(uri_of(t, p) == Some(path));
    let r = import_at(t, file, n, t.text(n), own_module(t, file), path);
    reached_is_behind(t, p + 1, t.after(p), c);
    show_is_shown(t, c);
    show_is_any(t, p + 1, t.after(p), c);
    assert(seq![r][0] == r);
    shown_names_in_has(t, file, own_module(t, file), path, c + 1, t.after(c), n, r);
    shown_in_has(t, file, own_module(t, file), path, p + 1, t.after(p), c, r);
    specified_in_has(t, file, own_module(t, file), l + 1, t.after(l), p, r);
    libraries_in_has(t, file, own_module(t, file), i + 1, t.after(i), l, r);
    let x = import_at(t, file, n, t.text(n), own_module(t, file), path);
    imports_reported(t, file, found, on_self, i, x);
}

/// An import that shows no names imports the last identifier in it, which names
/// the library, from the path between the quotes of its uri.
pub proof fn prefixes_are_imported(
    t: Syntax,
    file: Seq<char>,
    found: Seq<Seq<CaptureView>>,
    on_self: Seq<Seq<CaptureView>>,
    i: int,
    l: int,
    p: int,
    u: int,
    s: int,
    path: Seq<char>,
    n: int,
)
    requires
        t.nested(),
        0 <= i < t.after(0),
        t.kind(i) == "import_or_export"@,
        t.has_child(i, l),
        t.kind(l) == "library_import"@,
        t.has_child(l, p),
        t.kind(p) == "import_specification"@,
        t.child(p, "uri"@) == Some(u),
        quotes(t, u, s, path),
        forall|c: int| #[trigger] t.has_child(p, c) ==> !shows(t, c),
        t.has_child(p, n),
        t.kind(n) == "identifier"@,
        forall|e: int| #[trigger] t.has_child(p, e) && n < e ==> t.kind(e) != "identifier"@,
        forall|j: int, k: int| t.has(j) && t.kind(j) == "import_or_export"@
            && j < k < #[trigger] t.after(j)
            ==> #[trigger] t.kind(k) != "import_or_export"@,
    ensures
        imports(
            facts_of(t, file, found, on_self),
            t,
            n,
            t.text(n),
            if path.len() > 0 { Some(path) } else { None },
        ),
{
    reached_is_behind(t, i + 1, t.after(i), l);
    reached_is_behind(t, l + 1, t.after(l), p);
    quoted_is_plain(path);
    first_string(t, u, s);
    assert(uri_of(t, p) == Some(path));
    let r = import_at(t, file, n, t.text(n), own_module(t, file), path);
    assert forall|c: int| #[trigger] t.reaches(p + 1, t.after(p), c) implies !is_show(t, c) by {
        assert(t.has_child(p, c));
        reached_is_behind(t, p + 1, t.after(p), c);
        show_is_shown(t, c);
    }
    none_is_shown(t, p + 1, t.after(p));
    assert forall|e: int| #[trigger] t.reaches(p + 1, t.after(p), e) && n < e implies t.kind(e) != "identifier"@ by {
        assert(t.has_child(p, e));
    }
    last_identifier_is(t, p + 1, t.after(p), None, n);
    assert(specified(t, file, own_module(t, file), p)[0] == r);
    specified_in_has(t, file, own_module(t, file), l + 1, t.after(l), p, r);
    libraries_in_has(t, file, own_module(t, file), i + 1, t.after(i), l, r);
    let x = import_at(t, file, n, t.text(n), own_module(t, file), path);
    imports_reported(t, file, found, on_self, i, x);
}

// ── Scopes ───────────────────────────────────────────────────────────────────

/// Whether a node opens a scope for what stands in it.
pub open spec fn is_holder(t: Syntax, k: int) -> bool {
    ||| t.kind(k) == "class_declaration"@
    ||| t.kind(k) == "mixin_declaration"@
    ||| t.kind(k) == "enum_declaration"@
    ||| t.kind(k) == "extension_declaration"@
    ||| t.kind(k) == "function_declaration"@
    ||| t.kind(k) == "method_declaration"@
}

/// The kind of the scope that a node opens.
pub open spec fn scope_kind(t: Syntax, k: int) -> ScopeKind {
    if t.kind(k) == "class_declaration"@ || t.kind(k) == "mixin_declaration"@
        || t.kind(k) == "enum_declaration"@ || t.kind(k) == "extension_declaration"@ {
        ScopeKind::Type
    } else if t.kind(k) == "function_declaration"@ || t.kind(k) == "method_declaration"@ {
        ScopeKind::Function
    } else {
        ScopeKind::Block
    }
}

/// Whether a node is the body of a holder.
pub open spec fn is_held(t: Syntax, k: int) -> bool {
    exists|p: int| #![trigger t.child(p, "body"@)] 0 <= p < k && is_holder(t, p)
        && t.child(p, "body"@) == Some(k)
}

/// Whether a node opens a scope of its own: a holder, or a block that is not the
/// body of one.
pub open spec fn opens(t: Syntax, k: int) -> bool {
    (is_holder(t, k) || t.kind(k) == "block"@) && !is_held(t, k)
}

/// Whether node `j` stands in the body of the holder `k`.
pub open spec fn is_inside(t: Syntax, k: int, j: int) -> bool {
    t.child(k, "body"@) matches Some(b) && b < j < t.after(b)
}

/// Whether `outer` is the innermost node from `from` on that opens a scope around
/// node `j`.
pub open spec fn is_nearest(t: Syntax, from: int, j: int, outer: Option<int>) -> bool {
    match outer {
        Some(a) => from <= a < j && j < t.after(a) && opens(t, a) && forall|k: int| a < k < j
            && j < #[trigger] t.after(k)
            ==> !opens(t, k),
        None => forall|k: int| from <= k < j && j < #[trigger] t.after(k) ==> !opens(t, k),
    }
}

proof fn scopes_are_kept(t: Syntax, i: int, parent: ScopeId, scopes: Seq<Scope>)
    ensures
        extends(scopes_with(t, i, parent, scopes), scopes),
        t.has(i) && (is_holder(t, i) || t.kind(i) == "block"@)
            ==> extends(
                scopes_with(t, i, parent, scopes),
                scopes.push(
                    Scope { parent: Some(parent), span: span_at(t, i), kind: scope_kind(t, i) },
                ),
            ),
    decreases t.left(i), 0nat,
{
    if t.has(i) {
        scopes_with_kinds();
        let opened = scopes.push(
            Scope { parent: Some(parent), span: span_at(t, i), kind: scope_kind(t, i) },
        );
        let id = scopes.len() as usize;
        if is_holder(t, i) {
            if let Some(body) = t.child(i, "body"@) {
                scopes_are_kept_in(t, body + 1, t.after(body), id, opened);
            }
        } else if t.kind(i) == "block"@ {
            scopes_are_kept_in(t, i + 1, t.after(i), id, opened);
        } else {
            scopes_are_kept_in(t, i + 1, t.after(i), parent, scopes);
        }
    }
}

proof fn scopes_are_kept_in(t: Syntax, lo: int, hi: int, parent: ScopeId, scopes: Seq<Scope>)
    ensures
        extends(scopes_with_all(t, lo, hi, parent, scopes), scopes),
    decreases t.left(lo), 1nat,
{
    if lo < hi && t.has(lo) {
        scopes_are_kept(t, lo, parent, scopes);
        scopes_are_kept_in(t, t.next(lo, hi), hi, parent, scopes_with(t, lo, parent, scopes));
    }
}

proof fn scope_is_opened(
    t: Syntax,
    i: int,
    parent: ScopeId,
    scopes: Seq<Scope>,
    j: int,
    outer: Option<int>,
)
    requires
        t.nested(),
        t.linked(),
        t.has(i),
        i <= j < t.after(i),
        forall|k: int| #[trigger] is_holder(t, k) ==> !is_held(t, k),
        opens(t, j),
        !is_held(t, i),
        forall|k: int| i <= k < j && j < #[trigger] t.after(k) && is_holder(t, k)
            ==> is_inside(t, k, j),
        is_nearest(t, i, j, outer),
        scopes_with(t, i, parent, scopes).len() <= usize::MAX,
    ensures
        opens_scope(
            scopes_with(t, i, parent, scopes),
            scopes.len() as int,
            t,
            j,
            scope_kind(t, j),
            parent,
            outer,
        ),
    decreases t.left(i), 0nat,
{
    scopes_with_kinds();
    let opened = scopes.push(
        Scope { parent: Some(parent), span: span_at(t, i), kind: scope_kind(t, i) },
    );
    let id = scopes.len() as usize;
    let after = scopes_with(t, i, parent, scopes);
    scopes_are_kept(t, i, parent, scopes);
    if i == j {
        assert(after[scopes.len() as int] == opened[scopes.len() as int]);
    } else {
        let inner = if outer == Some(i) { None } else { outer };
        if is_holder(t, i) {
            assert(opens(t, i));
            assert(after[id as int] == opened[id as int]);
            assert(is_inside(t, i, j));
            let b = t.child(i, "body"@)->0;
            field_is_child(t, i, "body"@);
            assert(is_held(t, b));
            assert forall|k: int| i < k < j && j < #[trigger] t.after(k) implies k >= b by {
                if k < b {
                    earlier_ends_before(t, i + 1, t.after(i), b, k);
                }
            }
            assert forall|c: int| #[trigger] t.reaches(b + 1, t.after(b), c) implies !is_held(t, c) by {
                assert(t.has_child(b, c));
                if is_held(t, c) {
                    let p = choose|p: int| #![trigger t.child(p, "body"@)] 0 <= p < c
                        && is_holder(t, p) && t.child(p, "body"@) == Some(c);
                    field_is_child(t, p, "body"@);
                }
            }
            scope_is_opened_in(t, b + 1, t.after(b), id, opened, j, inner);
            scope_is_within(after, t, i, j, scope_kind(t, j), id, parent, inner, outer);
        } else if t.kind(i) == "block"@ {
            assert(opens(t, i));
            assert(after[id as int] == opened[id as int]);
            assert forall|c: int| #[trigger] t.reaches(i + 1, t.after(i), c) implies !is_held(t, c) by {
                assert(t.has_child(i, c));
                if is_held(t, c) {
                    let p = choose|p: int| #![trigger t.child(p, "body"@)] 0 <= p < c
                        && is_holder(t, p) && t.child(p, "body"@) == Some(c);
                    field_is_child(t, p, "body"@);
                }
            }
            scope_is_opened_in(t, i + 1, t.after(i), id, opened, j, inner);
            scope_is_within(after, t, i, j, scope_kind(t, j), id, parent, inner, outer);
        } else {
            assert(!opens(t, i));
            assert forall|c: int| #[trigger] t.reaches(i + 1, t.after(i), c) implies !is_held(t, c) by {
                assert(t.has_child(i, c));
                if is_held(t, c) {
                    let p = choose|p: int| #![trigger t.child(p, "body"@)] 0 <= p < c
                        && is_holder(t, p) && t.child(p, "body"@) == Some(c);
                    field_is_child(t, p, "body"@);
                }
            }
            scope_is_opened_in(t, i + 1, t.after(i), parent, scopes, j, outer);
        }
    }
}

proof fn scope_is_opened_in(
    t: Syntax,
    lo: int,
    hi: int,
    parent: ScopeId,
    scopes: Seq<Scope>,
    j: int,
    outer: Option<int>,
)
    requires
        t.nested(),
        t.linked(),
        t.closed_range(lo, hi),
        lo <= j < hi,
        forall|k: int| #[trigger] is_holder(t, k) ==> !is_held(t, k),
        opens(t, j),
        forall|c: int| #[trigger] t.reaches(lo, hi, c) ==> !is_held(t, c),
        forall|k: int| lo <= k < j && j < #[trigger] t.after(k) && is_holder(t, k)
            ==> is_inside(t, k, j),
        is_nearest(t, lo, j, outer),
        scopes_with_all(t, lo, hi, parent, scopes).len() <= usize::MAX,
    ensures
        opens_scope(
            scopes_with_all(t, lo, hi, parent, scopes),
            scopes.len() as int,
            t,
            j,
            scope_kind(t, j),
            parent,
            outer,
        ),
    decreases t.left(lo), 1nat,
{
    let next = t.next(lo, hi);
    assert(t.reaches(lo, hi, lo));
    assert forall|c: int| #[trigger] t.reaches(next, hi, c) implies t.reaches(lo, hi, c) by {}
    let first = scopes_with(t, lo, parent, scopes);
    let all = scopes_with_all(t, lo, hi, parent, scopes);
    scopes_are_kept(t, lo, parent, scopes);
    scopes_are_kept_in(t, next, hi, parent, first);
    if j < t.after(lo) {
        scope_is_opened(t, lo, parent, scopes, j, outer);
        opens_scope_stays(
            first,
            all,
            scopes.len() as int,
            scopes.len() as int,
            t,
            j,
            scope_kind(t, j),
            parent,
            outer,
        );
    } else {
        nearest_is_later(t, lo, next, j, outer);
        scope_is_opened_in(t, next, hi, parent, first, j, outer);
        opens_scope_stays(
            all,
            all,
            first.len() as int,
            scopes.len() as int,
            t,
            j,
            scope_kind(t, j),
            parent,
            outer,
        );
    }
}

proof fn nearest_is_later(t: Syntax, lo: int, next: int, j: int, outer: Option<int>)
    requires
        t.nested(),
        0 <= lo < t.len(),
        next == t.after(lo),
        next <= j,
        is_nearest(t, lo, j, outer),
    ensures
        is_nearest(t, next, j, outer),
{
    if let Some(a) = outer {
        if a < next {
            assert(t.after(a) <= t.after(lo));
        }
    }
}

/// A type, a function and a method open a scope of their own, and so does each
/// block that is not the body of one, where only bodies lie around it. Its
/// parent is the scope of the innermost of these around it, or that of the
/// file.
pub proof fn scopes_are_opened(
    t: Syntax,
    file: Seq<char>,
    found: Seq<Seq<CaptureView>>,
    on_self: Seq<Seq<CaptureView>>,
    j: int,
    outer: Option<int>,
)
    requires
        t.nested(),
        t.linked(),
        1 <= j < t.after(0),
        opens(t, j),
        forall|k: int| 1 <= k < j && j < #[trigger] t.after(k) && is_holder(t, k)
            ==> is_inside(t, k, j),
        forall|k: int| #[trigger] is_holder(t, k) ==> !is_held(t, k),
        !is_holder(t, 0),
        is_nearest(t, 1, j, outer),
        facts_of(t, file, found, on_self).scopes.len() <= usize::MAX,
    ensures
        opens_scope(facts_of(t, file, found, on_self).scopes, 1, t, j, scope_kind(t, j), 0, outer),
{
    let first = seq![module_scope(byte_count(t.source) as int)];
    assert forall|c: int| #[trigger] t.reaches(1, t.after(0), c) implies !is_held(t, c) by {
                assert(t.has_child(0, c));
                if is_held(t, c) {
                    let p = choose|p: int| #![trigger t.child(p, "body"@)] 0 <= p < c
                        && is_holder(t, p) && t.child(p, "body"@) == Some(c);
                    field_is_child(t, p, "body"@);
                }
            }
    scope_is_opened_in(t, 1, t.after(0), 0, first, j, outer);
}

// ── Modules ──────────────────────────────────────────────────────────────────

proof fn path_gives_namespaces(root: Seq<char>, parts: Seq<Seq<char>>, ext: Seq<char>)
    requires
        parts.len() > 0,
        are_parts(parts, '/'),
        ext == ".dart"@,
        root == "lib/"@ || root == "src/"@
            || (root.len() == 0 && !has_prefix(join(parts, '/'), "lib/"@) && !has_prefix(join(parts, '/'), "src/"@)),
    ensures
        namespaces_of(root + join(parts, '/') + ext) == parts,
{
    reveal_strlit(".dart");
    reveal_strlit("lib/");
    reveal_strlit("src/");
    let body = join(parts, '/');
    let stem = root + body;
    joined_comes_apart(parts, '/');
    own_suffix(stem, ext);
    prefix_comes_off(root, body);
    if root == "lib/"@ {
        assert(stem[0] == "lib/"@[0]);
        if has_prefix(stem, "src/"@) {
            assert(stem.subrange(0, 4)[0] == "src/"@[0]);
        }
    }
    if root == "src/"@ {
        assert(stem[0] == "src/"@[0]);
        if has_prefix(stem, "lib/"@) {
            assert(stem.subrange(0, 4)[0] == "lib/"@[0]);
        }
    }
    if root.len() == 0 {
        assert(stem =~= body);
    }
}

/// The module of a Dart file has the pieces of the path of the file as its
/// names, without `lib/` or `src/` in front and without the extension.
pub proof fn paths_name_modules(
    t: Syntax,
    file: Seq<char>,
    found: Seq<Seq<CaptureView>>,
    on_self: Seq<Seq<CaptureView>>,
    root: Seq<char>,
    parts: Seq<Seq<char>>,
    ext: Seq<char>,
)
    requires
        parts.len() > 0,
        are_parts(parts, '/'),
        ext == ".dart"@,
        root == "lib/"@ || root == "src/"@
            || (root.len() == 0 && !has_prefix(join(parts, '/'), "lib/"@) && !has_prefix(join(parts, '/'), "src/"@)),
        file == root + join(parts, '/') + ext,
    ensures
        is_module(facts_of(t, file, found, on_self), parts),
{
    path_gives_namespaces(root, parts, ext);
}

/// Each definition of a file stands in the module of the file where the file is
/// in a namespace: its identity extends that of the module.
pub proof fn definitions_stand_in_modules(
    t: Syntax,
    file: Seq<char>,
    found: Seq<Seq<CaptureView>>,
    on_self: Seq<Seq<CaptureView>>,
    k: int,
)
    requires
        0 <= k < facts_of(t, file, found, on_self).symbols.len() - 1,
        namespaces_of(file).len() > 0,
    ensures
        extends_module(facts_of(t, file, found, on_self), k),
{
    let c = context(t, file);
    let prefix = steps(t, file);
    let f = facts_of(t, file, found, on_self);
    definitions_belong(c, prefix, 1, t.after(0));
    let defs = symbols_in(c, prefix, 1, t.after(0));
    assert(f.symbols[k] == defs[k]);
    assert(f.symbols.last() == f.symbols[f.symbols.len() - 1]);
    assert(is_defined(c, prefix, defs[k]));
    assert(belongs(c, prefix, defs[k]));
}

proof fn first_is_of_kind(t: Syntax, lo: int, hi: int, kind: Seq<char>)
    ensures
        t.first_of_kind(lo, hi, kind) matches Some(n) ==> t.kind(n) == kind,
    decreases hi - lo,
{
    if lo < hi && t.kind(lo) != kind {
        first_is_of_kind(t, t.next(lo, hi), hi, kind);
    }
}

proof fn first_of_kind_is_kind(t: Syntax, i: int)
    ensures
        t.child_of_kind(i, "identifier"@) matches Some(n) ==> t.kind(n) == "identifier"@,
{
    first_is_of_kind(t, i + 1, t.after(i), "identifier"@);
}

// ── Nothing else is read or written ──────────────────────────────────────────

/// Whether the identifier `i` below `p` stands as a value: it is not called, assigned
/// to or introduced there.
pub open spec fn is_value_below(t: Syntax, p: int, i: int) -> bool {
    &&& t.kind(p) == "call_expression"@ ==> !(t.child(p, "function"@) == Some(i))
    &&& t.kind(p) == "function_signature"@ ==> !(t.in_field(i, "name"@))
    &&& t.kind(p) == "getter_signature"@ ==> !(t.in_field(i, "name"@))
    &&& t.kind(p) == "setter_signature"@ ==> !(t.in_field(i, "name"@))
    &&& t.kind(p) == "constructor_signature"@ ==> !(t.in_field(i, "name"@))
    &&& t.kind(p) == "constant_constructor_signature"@ ==> !(t.in_field(i, "name"@))
    &&& t.kind(p) == "factory_constructor_signature"@ ==> !(t.in_field(i, "name"@))
    &&& t.kind(p) == "redirecting_factory_constructor_signature"@ ==> !(t.in_field(i, "name"@))
    &&& t.kind(p) == "class_declaration"@ ==> !(t.in_field(i, "name"@))
    &&& t.kind(p) == "mixin_declaration"@ ==> !(t.in_field(i, "name"@))
    &&& t.kind(p) == "enum_declaration"@ ==> !(t.in_field(i, "name"@))
    &&& t.kind(p) == "extension_declaration"@ ==> !(t.in_field(i, "name"@))
    &&& t.kind(p) == "extension_type_declaration"@ ==> !(t.in_field(i, "name"@))
    &&& t.kind(p) == "enum_constant"@ ==> !(t.in_field(i, "name"@))
    &&& t.kind(p) == "typed_identifier"@ ==> !(t.in_field(i, "name"@))
    &&& t.kind(p) == "initialized_identifier"@ ==> !(t.in_field(i, "name"@))
    &&& t.kind(p) == "static_final_declaration"@ ==> !(t.in_field(i, "name"@))
    &&& t.kind(p) == "initialized_variable_definition"@ ==> !(t.in_field(i, "name"@))
    &&& t.kind(p) == "variable_pattern"@ ==> !(t.in_field(i, "name"@))
    &&& t.kind(p) == "for_statement"@ ==> !(t.in_field(i, "name"@))
    &&& t.kind(p) == "for_element"@ ==> !(t.in_field(i, "name"@))
    &&& t.kind(p) == "assignable_expression"@ ==> !(t.child(p, "property"@) == Some(i))
    &&& t.kind(p) == "assignment_expression"@ ==> !(t.child(p, "left"@) == Some(i))
    &&& t.kind(p) == "member_expression"@ ==> !(t.child(p, "property"@) == Some(i))
    &&& t.kind(p) == "null_aware_member_expression"@ ==> !(t.child(p, "property"@) == Some(i))
    &&& t.kind(p) == "cascade_member_expression"@ ==> !(t.child(p, "property"@) == Some(i))
    &&& t.kind(p) == "cascade_null_aware_member_expression"@
        ==> !(t.child(p, "property"@) == Some(i))
    &&& t.kind(p) == "formal_parameter"@ ==> false
    &&& t.kind(p) == "constructor_param"@ ==> false
    &&& t.kind(p) == "super_formal_parameter"@ ==> false
    &&& t.kind(p) == "identifier_list"@ ==> false
    &&& t.kind(p) == "mixin_application_class"@ ==> false
    &&& t.kind(p) == "catch_clause"@ ==> false
    &&& t.kind(p) == "import_specification"@ ==> false
    &&& t.kind(p) == "combinator"@ ==> false
}

/// Each read of a file is of an identifier that is long enough and stands as a
/// value.
pub proof fn reads_are_values(t: Syntax, file: Seq<char>, k: int) -> (at: (int, int))
    requires
        t.nested(),
        t.has(0),
        identifiers_apart(t),
        0 <= k < reads_at(t, file, 0).len(),
    ensures
        0 <= at.1 < t.after(0),
        t.kind(at.1) == "identifier"@,
        long_enough(t.text(at.1)),
        t.parent(at.1) == Some(at.0),
        is_value_below(t, at.0, at.1),
        reads_at(t, file, 0)[k] == reference_at(t, file, at.1, t.text(at.1), RefRole::Read),
{
    reads_are_sound(t, file, k);
    let i = choose|i: int| 0 <= i < t.after(0) && #[trigger] is_read(t, i)
        && reads_at(t, file, 0)[k] == reference_at(t, file, i, t.text(i), RefRole::Read);
    let p = t.parent(i)->0;
    read_is_value(t, p, i);
    (p, i)
}

proof fn read_is_value(t: Syntax, p: int, i: int)
    requires
        t.parent(i) == Some(p),
        !not_read(t, i),
    ensures
        is_value_below(t, p, i),
{
    read_kinds();
}

#[verifier::rlimit(50)]
proof fn read_kinds()
    ensures
        "call_expression"@ != "assignable_expression"@,
        "call_expression"@ != "assignment_expression"@,
        "call_expression"@ != "member_expression"@,
        "call_expression"@ != "null_aware_member_expression"@,
        "call_expression"@ != "cascade_member_expression"@,
        "call_expression"@ != "cascade_null_aware_member_expression"@,
        "call_expression"@ != "function_signature"@,
        "call_expression"@ != "getter_signature"@,
        "call_expression"@ != "setter_signature"@,
        "call_expression"@ != "constructor_signature"@,
        "call_expression"@ != "constant_constructor_signature"@,
        "call_expression"@ != "factory_constructor_signature"@,
        "call_expression"@ != "redirecting_factory_constructor_signature"@,
        "call_expression"@ != "class_declaration"@,
        "call_expression"@ != "mixin_declaration"@,
        "call_expression"@ != "enum_declaration"@,
        "call_expression"@ != "extension_declaration"@,
        "call_expression"@ != "extension_type_declaration"@,
        "call_expression"@ != "enum_constant"@,
        "call_expression"@ != "typed_identifier"@,
        "call_expression"@ != "initialized_identifier"@,
        "call_expression"@ != "static_final_declaration"@,
        "call_expression"@ != "initialized_variable_definition"@,
        "call_expression"@ != "variable_pattern"@,
        "call_expression"@ != "for_statement"@,
        "call_expression"@ != "for_element"@,
        "call_expression"@ != "formal_parameter"@,
        "call_expression"@ != "constructor_param"@,
        "call_expression"@ != "super_formal_parameter"@,
        "call_expression"@ != "identifier_list"@,
        "call_expression"@ != "mixin_application_class"@,
        "call_expression"@ != "catch_clause"@,
        "call_expression"@ != "import_specification"@,
        "call_expression"@ != "combinator"@,
        "function_signature"@ != "assignable_expression"@,
        "function_signature"@ != "assignment_expression"@,
        "function_signature"@ != "member_expression"@,
        "function_signature"@ != "null_aware_member_expression"@,
        "function_signature"@ != "cascade_member_expression"@,
        "function_signature"@ != "cascade_null_aware_member_expression"@,
        "function_signature"@ != "getter_signature"@,
        "function_signature"@ != "setter_signature"@,
        "function_signature"@ != "constructor_signature"@,
        "function_signature"@ != "constant_constructor_signature"@,
        "function_signature"@ != "factory_constructor_signature"@,
        "function_signature"@ != "redirecting_factory_constructor_signature"@,
        "function_signature"@ != "class_declaration"@,
        "function_signature"@ != "mixin_declaration"@,
        "function_signature"@ != "enum_declaration"@,
        "function_signature"@ != "extension_declaration"@,
        "function_signature"@ != "extension_type_declaration"@,
        "function_signature"@ != "enum_constant"@,
        "function_signature"@ != "typed_identifier"@,
        "function_signature"@ != "initialized_identifier"@,
        "function_signature"@ != "static_final_declaration"@,
        "function_signature"@ != "initialized_variable_definition"@,
        "function_signature"@ != "variable_pattern"@,
        "function_signature"@ != "for_statement"@,
        "function_signature"@ != "for_element"@,
        "function_signature"@ != "formal_parameter"@,
        "function_signature"@ != "constructor_param"@,
        "function_signature"@ != "super_formal_parameter"@,
        "function_signature"@ != "identifier_list"@,
        "function_signature"@ != "mixin_application_class"@,
        "function_signature"@ != "catch_clause"@,
        "function_signature"@ != "import_specification"@,
        "function_signature"@ != "combinator"@,
        "getter_signature"@ != "assignable_expression"@,
        "getter_signature"@ != "assignment_expression"@,
        "getter_signature"@ != "member_expression"@,
        "getter_signature"@ != "null_aware_member_expression"@,
        "getter_signature"@ != "cascade_member_expression"@,
        "getter_signature"@ != "cascade_null_aware_member_expression"@,
        "getter_signature"@ != "setter_signature"@,
        "getter_signature"@ != "constructor_signature"@,
        "getter_signature"@ != "constant_constructor_signature"@,
        "getter_signature"@ != "factory_constructor_signature"@,
        "getter_signature"@ != "redirecting_factory_constructor_signature"@,
        "getter_signature"@ != "class_declaration"@,
        "getter_signature"@ != "mixin_declaration"@,
        "getter_signature"@ != "enum_declaration"@,
        "getter_signature"@ != "extension_declaration"@,
        "getter_signature"@ != "extension_type_declaration"@,
        "getter_signature"@ != "enum_constant"@,
        "getter_signature"@ != "typed_identifier"@,
        "getter_signature"@ != "initialized_identifier"@,
        "getter_signature"@ != "static_final_declaration"@,
        "getter_signature"@ != "initialized_variable_definition"@,
        "getter_signature"@ != "variable_pattern"@,
        "getter_signature"@ != "for_statement"@,
        "getter_signature"@ != "for_element"@,
        "getter_signature"@ != "formal_parameter"@,
        "getter_signature"@ != "constructor_param"@,
        "getter_signature"@ != "super_formal_parameter"@,
        "getter_signature"@ != "identifier_list"@,
        "getter_signature"@ != "mixin_application_class"@,
        "getter_signature"@ != "catch_clause"@,
        "getter_signature"@ != "import_specification"@,
        "getter_signature"@ != "combinator"@,
        "setter_signature"@ != "assignable_expression"@,
        "setter_signature"@ != "assignment_expression"@,
        "setter_signature"@ != "member_expression"@,
        "setter_signature"@ != "null_aware_member_expression"@,
        "setter_signature"@ != "cascade_member_expression"@,
        "setter_signature"@ != "cascade_null_aware_member_expression"@,
        "setter_signature"@ != "constructor_signature"@,
        "setter_signature"@ != "constant_constructor_signature"@,
        "setter_signature"@ != "factory_constructor_signature"@,
        "setter_signature"@ != "redirecting_factory_constructor_signature"@,
        "setter_signature"@ != "class_declaration"@,
        "setter_signature"@ != "mixin_declaration"@,
        "setter_signature"@ != "enum_declaration"@,
        "setter_signature"@ != "extension_declaration"@,
        "setter_signature"@ != "extension_type_declaration"@,
        "setter_signature"@ != "enum_constant"@,
        "setter_signature"@ != "typed_identifier"@,
        "setter_signature"@ != "initialized_identifier"@,
        "setter_signature"@ != "static_final_declaration"@,
        "setter_signature"@ != "initialized_variable_definition"@,
        "setter_signature"@ != "variable_pattern"@,
        "setter_signature"@ != "for_statement"@,
        "setter_signature"@ != "for_element"@,
        "setter_signature"@ != "formal_parameter"@,
        "setter_signature"@ != "constructor_param"@,
        "setter_signature"@ != "super_formal_parameter"@,
        "setter_signature"@ != "identifier_list"@,
        "setter_signature"@ != "mixin_application_class"@,
        "setter_signature"@ != "catch_clause"@,
        "setter_signature"@ != "import_specification"@,
        "setter_signature"@ != "combinator"@,
        "constructor_signature"@ != "assignable_expression"@,
        "constructor_signature"@ != "assignment_expression"@,
        "constructor_signature"@ != "member_expression"@,
        "constructor_signature"@ != "null_aware_member_expression"@,
        "constructor_signature"@ != "cascade_member_expression"@,
        "constructor_signature"@ != "cascade_null_aware_member_expression"@,
        "constructor_signature"@ != "constant_constructor_signature"@,
        "constructor_signature"@ != "factory_constructor_signature"@,
        "constructor_signature"@ != "redirecting_factory_constructor_signature"@,
        "constructor_signature"@ != "class_declaration"@,
        "constructor_signature"@ != "mixin_declaration"@,
        "constructor_signature"@ != "enum_declaration"@,
        "constructor_signature"@ != "extension_declaration"@,
        "constructor_signature"@ != "extension_type_declaration"@,
        "constructor_signature"@ != "enum_constant"@,
        "constructor_signature"@ != "typed_identifier"@,
        "constructor_signature"@ != "initialized_identifier"@,
        "constructor_signature"@ != "static_final_declaration"@,
        "constructor_signature"@ != "initialized_variable_definition"@,
        "constructor_signature"@ != "variable_pattern"@,
        "constructor_signature"@ != "for_statement"@,
        "constructor_signature"@ != "for_element"@,
        "constructor_signature"@ != "formal_parameter"@,
        "constructor_signature"@ != "constructor_param"@,
        "constructor_signature"@ != "super_formal_parameter"@,
        "constructor_signature"@ != "identifier_list"@,
        "constructor_signature"@ != "mixin_application_class"@,
        "constructor_signature"@ != "catch_clause"@,
        "constructor_signature"@ != "import_specification"@,
        "constructor_signature"@ != "combinator"@,
        "constant_constructor_signature"@ != "assignable_expression"@,
        "constant_constructor_signature"@ != "assignment_expression"@,
        "constant_constructor_signature"@ != "member_expression"@,
        "constant_constructor_signature"@ != "null_aware_member_expression"@,
        "constant_constructor_signature"@ != "cascade_member_expression"@,
        "constant_constructor_signature"@ != "cascade_null_aware_member_expression"@,
        "constant_constructor_signature"@ != "factory_constructor_signature"@,
        "constant_constructor_signature"@ != "redirecting_factory_constructor_signature"@,
        "constant_constructor_signature"@ != "class_declaration"@,
        "constant_constructor_signature"@ != "mixin_declaration"@,
        "constant_constructor_signature"@ != "enum_declaration"@,
        "constant_constructor_signature"@ != "extension_declaration"@,
        "constant_constructor_signature"@ != "extension_type_declaration"@,
        "constant_constructor_signature"@ != "enum_constant"@,
        "constant_constructor_signature"@ != "typed_identifier"@,
        "constant_constructor_signature"@ != "initialized_identifier"@,
        "constant_constructor_signature"@ != "static_final_declaration"@,
        "constant_constructor_signature"@ != "initialized_variable_definition"@,
        "constant_constructor_signature"@ != "variable_pattern"@,
        "constant_constructor_signature"@ != "for_statement"@,
        "constant_constructor_signature"@ != "for_element"@,
        "constant_constructor_signature"@ != "formal_parameter"@,
        "constant_constructor_signature"@ != "constructor_param"@,
        "constant_constructor_signature"@ != "super_formal_parameter"@,
        "constant_constructor_signature"@ != "identifier_list"@,
        "constant_constructor_signature"@ != "mixin_application_class"@,
        "constant_constructor_signature"@ != "catch_clause"@,
        "constant_constructor_signature"@ != "import_specification"@,
        "constant_constructor_signature"@ != "combinator"@,
        "factory_constructor_signature"@ != "assignable_expression"@,
        "factory_constructor_signature"@ != "assignment_expression"@,
        "factory_constructor_signature"@ != "member_expression"@,
        "factory_constructor_signature"@ != "null_aware_member_expression"@,
        "factory_constructor_signature"@ != "cascade_member_expression"@,
        "factory_constructor_signature"@ != "cascade_null_aware_member_expression"@,
        "factory_constructor_signature"@ != "redirecting_factory_constructor_signature"@,
        "factory_constructor_signature"@ != "class_declaration"@,
        "factory_constructor_signature"@ != "mixin_declaration"@,
        "factory_constructor_signature"@ != "enum_declaration"@,
        "factory_constructor_signature"@ != "extension_declaration"@,
        "factory_constructor_signature"@ != "extension_type_declaration"@,
        "factory_constructor_signature"@ != "enum_constant"@,
        "factory_constructor_signature"@ != "typed_identifier"@,
        "factory_constructor_signature"@ != "initialized_identifier"@,
        "factory_constructor_signature"@ != "static_final_declaration"@,
        "factory_constructor_signature"@ != "initialized_variable_definition"@,
        "factory_constructor_signature"@ != "variable_pattern"@,
        "factory_constructor_signature"@ != "for_statement"@,
        "factory_constructor_signature"@ != "for_element"@,
        "factory_constructor_signature"@ != "formal_parameter"@,
        "factory_constructor_signature"@ != "constructor_param"@,
        "factory_constructor_signature"@ != "super_formal_parameter"@,
        "factory_constructor_signature"@ != "identifier_list"@,
        "factory_constructor_signature"@ != "mixin_application_class"@,
        "factory_constructor_signature"@ != "catch_clause"@,
        "factory_constructor_signature"@ != "import_specification"@,
        "factory_constructor_signature"@ != "combinator"@,
        "redirecting_factory_constructor_signature"@ != "assignable_expression"@,
        "redirecting_factory_constructor_signature"@ != "assignment_expression"@,
        "redirecting_factory_constructor_signature"@ != "member_expression"@,
        "redirecting_factory_constructor_signature"@ != "null_aware_member_expression"@,
        "redirecting_factory_constructor_signature"@ != "cascade_member_expression"@,
        "redirecting_factory_constructor_signature"@ != "cascade_null_aware_member_expression"@,
        "redirecting_factory_constructor_signature"@ != "class_declaration"@,
        "redirecting_factory_constructor_signature"@ != "mixin_declaration"@,
        "redirecting_factory_constructor_signature"@ != "enum_declaration"@,
        "redirecting_factory_constructor_signature"@ != "extension_declaration"@,
        "redirecting_factory_constructor_signature"@ != "extension_type_declaration"@,
        "redirecting_factory_constructor_signature"@ != "enum_constant"@,
        "redirecting_factory_constructor_signature"@ != "typed_identifier"@,
        "redirecting_factory_constructor_signature"@ != "initialized_identifier"@,
        "redirecting_factory_constructor_signature"@ != "static_final_declaration"@,
        "redirecting_factory_constructor_signature"@ != "initialized_variable_definition"@,
        "redirecting_factory_constructor_signature"@ != "variable_pattern"@,
        "redirecting_factory_constructor_signature"@ != "for_statement"@,
        "redirecting_factory_constructor_signature"@ != "for_element"@,
        "redirecting_factory_constructor_signature"@ != "formal_parameter"@,
        "redirecting_factory_constructor_signature"@ != "constructor_param"@,
        "redirecting_factory_constructor_signature"@ != "super_formal_parameter"@,
        "redirecting_factory_constructor_signature"@ != "identifier_list"@,
        "redirecting_factory_constructor_signature"@ != "mixin_application_class"@,
        "redirecting_factory_constructor_signature"@ != "catch_clause"@,
        "redirecting_factory_constructor_signature"@ != "import_specification"@,
        "redirecting_factory_constructor_signature"@ != "combinator"@,
        "class_declaration"@ != "assignable_expression"@,
        "class_declaration"@ != "assignment_expression"@,
        "class_declaration"@ != "member_expression"@,
        "class_declaration"@ != "null_aware_member_expression"@,
        "class_declaration"@ != "cascade_member_expression"@,
        "class_declaration"@ != "cascade_null_aware_member_expression"@,
        "class_declaration"@ != "mixin_declaration"@,
        "class_declaration"@ != "enum_declaration"@,
        "class_declaration"@ != "extension_declaration"@,
        "class_declaration"@ != "extension_type_declaration"@,
        "class_declaration"@ != "enum_constant"@,
        "class_declaration"@ != "typed_identifier"@,
        "class_declaration"@ != "initialized_identifier"@,
        "class_declaration"@ != "static_final_declaration"@,
        "class_declaration"@ != "initialized_variable_definition"@,
        "class_declaration"@ != "variable_pattern"@,
        "class_declaration"@ != "for_statement"@,
        "class_declaration"@ != "for_element"@,
        "class_declaration"@ != "formal_parameter"@,
        "class_declaration"@ != "constructor_param"@,
        "class_declaration"@ != "super_formal_parameter"@,
        "class_declaration"@ != "identifier_list"@,
        "class_declaration"@ != "mixin_application_class"@,
        "class_declaration"@ != "catch_clause"@,
        "class_declaration"@ != "import_specification"@,
        "class_declaration"@ != "combinator"@,
        "mixin_declaration"@ != "assignable_expression"@,
        "mixin_declaration"@ != "assignment_expression"@,
        "mixin_declaration"@ != "member_expression"@,
        "mixin_declaration"@ != "null_aware_member_expression"@,
        "mixin_declaration"@ != "cascade_member_expression"@,
        "mixin_declaration"@ != "cascade_null_aware_member_expression"@,
        "mixin_declaration"@ != "enum_declaration"@,
        "mixin_declaration"@ != "extension_declaration"@,
        "mixin_declaration"@ != "extension_type_declaration"@,
        "mixin_declaration"@ != "enum_constant"@,
        "mixin_declaration"@ != "typed_identifier"@,
        "mixin_declaration"@ != "initialized_identifier"@,
        "mixin_declaration"@ != "static_final_declaration"@,
        "mixin_declaration"@ != "initialized_variable_definition"@,
        "mixin_declaration"@ != "variable_pattern"@,
        "mixin_declaration"@ != "for_statement"@,
        "mixin_declaration"@ != "for_element"@,
        "mixin_declaration"@ != "formal_parameter"@,
        "mixin_declaration"@ != "constructor_param"@,
        "mixin_declaration"@ != "super_formal_parameter"@,
        "mixin_declaration"@ != "identifier_list"@,
        "mixin_declaration"@ != "mixin_application_class"@,
        "mixin_declaration"@ != "catch_clause"@,
        "mixin_declaration"@ != "import_specification"@,
        "mixin_declaration"@ != "combinator"@,
        "enum_declaration"@ != "assignable_expression"@,
        "enum_declaration"@ != "assignment_expression"@,
        "enum_declaration"@ != "member_expression"@,
        "enum_declaration"@ != "null_aware_member_expression"@,
        "enum_declaration"@ != "cascade_member_expression"@,
        "enum_declaration"@ != "cascade_null_aware_member_expression"@,
        "enum_declaration"@ != "extension_declaration"@,
        "enum_declaration"@ != "extension_type_declaration"@,
        "enum_declaration"@ != "enum_constant"@,
        "enum_declaration"@ != "typed_identifier"@,
        "enum_declaration"@ != "initialized_identifier"@,
        "enum_declaration"@ != "static_final_declaration"@,
        "enum_declaration"@ != "initialized_variable_definition"@,
        "enum_declaration"@ != "variable_pattern"@,
        "enum_declaration"@ != "for_statement"@,
        "enum_declaration"@ != "for_element"@,
        "enum_declaration"@ != "formal_parameter"@,
        "enum_declaration"@ != "constructor_param"@,
        "enum_declaration"@ != "super_formal_parameter"@,
        "enum_declaration"@ != "identifier_list"@,
        "enum_declaration"@ != "mixin_application_class"@,
        "enum_declaration"@ != "catch_clause"@,
        "enum_declaration"@ != "import_specification"@,
        "enum_declaration"@ != "combinator"@,
        "extension_declaration"@ != "assignable_expression"@,
        "extension_declaration"@ != "assignment_expression"@,
        "extension_declaration"@ != "member_expression"@,
        "extension_declaration"@ != "null_aware_member_expression"@,
        "extension_declaration"@ != "cascade_member_expression"@,
        "extension_declaration"@ != "cascade_null_aware_member_expression"@,
        "extension_declaration"@ != "extension_type_declaration"@,
        "extension_declaration"@ != "enum_constant"@,
        "extension_declaration"@ != "typed_identifier"@,
        "extension_declaration"@ != "initialized_identifier"@,
        "extension_declaration"@ != "static_final_declaration"@,
        "extension_declaration"@ != "initialized_variable_definition"@,
        "extension_declaration"@ != "variable_pattern"@,
        "extension_declaration"@ != "for_statement"@,
        "extension_declaration"@ != "for_element"@,
        "extension_declaration"@ != "formal_parameter"@,
        "extension_declaration"@ != "constructor_param"@,
        "extension_declaration"@ != "super_formal_parameter"@,
        "extension_declaration"@ != "identifier_list"@,
        "extension_declaration"@ != "mixin_application_class"@,
        "extension_declaration"@ != "catch_clause"@,
        "extension_declaration"@ != "import_specification"@,
        "extension_declaration"@ != "combinator"@,
        "extension_type_declaration"@ != "assignable_expression"@,
        "extension_type_declaration"@ != "assignment_expression"@,
        "extension_type_declaration"@ != "member_expression"@,
        "extension_type_declaration"@ != "null_aware_member_expression"@,
        "extension_type_declaration"@ != "cascade_member_expression"@,
        "extension_type_declaration"@ != "cascade_null_aware_member_expression"@,
        "extension_type_declaration"@ != "enum_constant"@,
        "extension_type_declaration"@ != "typed_identifier"@,
        "extension_type_declaration"@ != "initialized_identifier"@,
        "extension_type_declaration"@ != "static_final_declaration"@,
        "extension_type_declaration"@ != "initialized_variable_definition"@,
        "extension_type_declaration"@ != "variable_pattern"@,
        "extension_type_declaration"@ != "for_statement"@,
        "extension_type_declaration"@ != "for_element"@,
        "extension_type_declaration"@ != "formal_parameter"@,
        "extension_type_declaration"@ != "constructor_param"@,
        "extension_type_declaration"@ != "super_formal_parameter"@,
        "extension_type_declaration"@ != "identifier_list"@,
        "extension_type_declaration"@ != "mixin_application_class"@,
        "extension_type_declaration"@ != "catch_clause"@,
        "extension_type_declaration"@ != "import_specification"@,
        "extension_type_declaration"@ != "combinator"@,
        "enum_constant"@ != "assignable_expression"@,
        "enum_constant"@ != "assignment_expression"@,
        "enum_constant"@ != "member_expression"@,
        "enum_constant"@ != "null_aware_member_expression"@,
        "enum_constant"@ != "cascade_member_expression"@,
        "enum_constant"@ != "cascade_null_aware_member_expression"@,
        "enum_constant"@ != "typed_identifier"@,
        "enum_constant"@ != "initialized_identifier"@,
        "enum_constant"@ != "static_final_declaration"@,
        "enum_constant"@ != "initialized_variable_definition"@,
        "enum_constant"@ != "variable_pattern"@,
        "enum_constant"@ != "for_statement"@,
        "enum_constant"@ != "for_element"@,
        "enum_constant"@ != "formal_parameter"@,
        "enum_constant"@ != "constructor_param"@,
        "enum_constant"@ != "super_formal_parameter"@,
        "enum_constant"@ != "identifier_list"@,
        "enum_constant"@ != "mixin_application_class"@,
        "enum_constant"@ != "catch_clause"@,
        "enum_constant"@ != "import_specification"@,
        "enum_constant"@ != "combinator"@,
        "typed_identifier"@ != "assignable_expression"@,
        "typed_identifier"@ != "assignment_expression"@,
        "typed_identifier"@ != "member_expression"@,
        "typed_identifier"@ != "null_aware_member_expression"@,
        "typed_identifier"@ != "cascade_member_expression"@,
        "typed_identifier"@ != "cascade_null_aware_member_expression"@,
        "typed_identifier"@ != "initialized_identifier"@,
        "typed_identifier"@ != "static_final_declaration"@,
        "typed_identifier"@ != "initialized_variable_definition"@,
        "typed_identifier"@ != "variable_pattern"@,
        "typed_identifier"@ != "for_statement"@,
        "typed_identifier"@ != "for_element"@,
        "typed_identifier"@ != "formal_parameter"@,
        "typed_identifier"@ != "constructor_param"@,
        "typed_identifier"@ != "super_formal_parameter"@,
        "typed_identifier"@ != "identifier_list"@,
        "typed_identifier"@ != "mixin_application_class"@,
        "typed_identifier"@ != "catch_clause"@,
        "typed_identifier"@ != "import_specification"@,
        "typed_identifier"@ != "combinator"@,
        "initialized_identifier"@ != "assignable_expression"@,
        "initialized_identifier"@ != "assignment_expression"@,
        "initialized_identifier"@ != "member_expression"@,
        "initialized_identifier"@ != "null_aware_member_expression"@,
        "initialized_identifier"@ != "cascade_member_expression"@,
        "initialized_identifier"@ != "cascade_null_aware_member_expression"@,
        "initialized_identifier"@ != "static_final_declaration"@,
        "initialized_identifier"@ != "initialized_variable_definition"@,
        "initialized_identifier"@ != "variable_pattern"@,
        "initialized_identifier"@ != "for_statement"@,
        "initialized_identifier"@ != "for_element"@,
        "initialized_identifier"@ != "formal_parameter"@,
        "initialized_identifier"@ != "constructor_param"@,
        "initialized_identifier"@ != "super_formal_parameter"@,
        "initialized_identifier"@ != "identifier_list"@,
        "initialized_identifier"@ != "mixin_application_class"@,
        "initialized_identifier"@ != "catch_clause"@,
        "initialized_identifier"@ != "import_specification"@,
        "initialized_identifier"@ != "combinator"@,
        "static_final_declaration"@ != "assignable_expression"@,
        "static_final_declaration"@ != "assignment_expression"@,
        "static_final_declaration"@ != "member_expression"@,
        "static_final_declaration"@ != "null_aware_member_expression"@,
        "static_final_declaration"@ != "cascade_member_expression"@,
        "static_final_declaration"@ != "cascade_null_aware_member_expression"@,
        "static_final_declaration"@ != "initialized_variable_definition"@,
        "static_final_declaration"@ != "variable_pattern"@,
        "static_final_declaration"@ != "for_statement"@,
        "static_final_declaration"@ != "for_element"@,
        "static_final_declaration"@ != "formal_parameter"@,
        "static_final_declaration"@ != "constructor_param"@,
        "static_final_declaration"@ != "super_formal_parameter"@,
        "static_final_declaration"@ != "identifier_list"@,
        "static_final_declaration"@ != "mixin_application_class"@,
        "static_final_declaration"@ != "catch_clause"@,
        "static_final_declaration"@ != "import_specification"@,
        "static_final_declaration"@ != "combinator"@,
        "initialized_variable_definition"@ != "assignable_expression"@,
        "initialized_variable_definition"@ != "assignment_expression"@,
        "initialized_variable_definition"@ != "member_expression"@,
        "initialized_variable_definition"@ != "null_aware_member_expression"@,
        "initialized_variable_definition"@ != "cascade_member_expression"@,
        "initialized_variable_definition"@ != "cascade_null_aware_member_expression"@,
        "initialized_variable_definition"@ != "variable_pattern"@,
        "initialized_variable_definition"@ != "for_statement"@,
        "initialized_variable_definition"@ != "for_element"@,
        "initialized_variable_definition"@ != "formal_parameter"@,
        "initialized_variable_definition"@ != "constructor_param"@,
        "initialized_variable_definition"@ != "super_formal_parameter"@,
        "initialized_variable_definition"@ != "identifier_list"@,
        "initialized_variable_definition"@ != "mixin_application_class"@,
        "initialized_variable_definition"@ != "catch_clause"@,
        "initialized_variable_definition"@ != "import_specification"@,
        "initialized_variable_definition"@ != "combinator"@,
        "variable_pattern"@ != "assignable_expression"@,
        "variable_pattern"@ != "assignment_expression"@,
        "variable_pattern"@ != "member_expression"@,
        "variable_pattern"@ != "null_aware_member_expression"@,
        "variable_pattern"@ != "cascade_member_expression"@,
        "variable_pattern"@ != "cascade_null_aware_member_expression"@,
        "variable_pattern"@ != "for_statement"@,
        "variable_pattern"@ != "for_element"@,
        "variable_pattern"@ != "formal_parameter"@,
        "variable_pattern"@ != "constructor_param"@,
        "variable_pattern"@ != "super_formal_parameter"@,
        "variable_pattern"@ != "identifier_list"@,
        "variable_pattern"@ != "mixin_application_class"@,
        "variable_pattern"@ != "catch_clause"@,
        "variable_pattern"@ != "import_specification"@,
        "variable_pattern"@ != "combinator"@,
        "for_statement"@ != "assignable_expression"@,
        "for_statement"@ != "assignment_expression"@,
        "for_statement"@ != "member_expression"@,
        "for_statement"@ != "null_aware_member_expression"@,
        "for_statement"@ != "cascade_member_expression"@,
        "for_statement"@ != "cascade_null_aware_member_expression"@,
        "for_statement"@ != "for_element"@,
        "for_statement"@ != "formal_parameter"@,
        "for_statement"@ != "constructor_param"@,
        "for_statement"@ != "super_formal_parameter"@,
        "for_statement"@ != "identifier_list"@,
        "for_statement"@ != "mixin_application_class"@,
        "for_statement"@ != "catch_clause"@,
        "for_statement"@ != "import_specification"@,
        "for_statement"@ != "combinator"@,
        "for_element"@ != "assignable_expression"@,
        "for_element"@ != "assignment_expression"@,
        "for_element"@ != "member_expression"@,
        "for_element"@ != "null_aware_member_expression"@,
        "for_element"@ != "cascade_member_expression"@,
        "for_element"@ != "cascade_null_aware_member_expression"@,
        "for_element"@ != "formal_parameter"@,
        "for_element"@ != "constructor_param"@,
        "for_element"@ != "super_formal_parameter"@,
        "for_element"@ != "identifier_list"@,
        "for_element"@ != "mixin_application_class"@,
        "for_element"@ != "catch_clause"@,
        "for_element"@ != "import_specification"@,
        "for_element"@ != "combinator"@,
        "assignable_expression"@ != "assignment_expression"@,
        "assignable_expression"@ != "member_expression"@,
        "assignable_expression"@ != "null_aware_member_expression"@,
        "assignable_expression"@ != "cascade_member_expression"@,
        "assignable_expression"@ != "cascade_null_aware_member_expression"@,
        "assignable_expression"@ != "formal_parameter"@,
        "assignable_expression"@ != "constructor_param"@,
        "assignable_expression"@ != "super_formal_parameter"@,
        "assignable_expression"@ != "identifier_list"@,
        "assignable_expression"@ != "mixin_application_class"@,
        "assignable_expression"@ != "catch_clause"@,
        "assignable_expression"@ != "import_specification"@,
        "assignable_expression"@ != "combinator"@,
        "assignment_expression"@ != "member_expression"@,
        "assignment_expression"@ != "null_aware_member_expression"@,
        "assignment_expression"@ != "cascade_member_expression"@,
        "assignment_expression"@ != "cascade_null_aware_member_expression"@,
        "assignment_expression"@ != "formal_parameter"@,
        "assignment_expression"@ != "constructor_param"@,
        "assignment_expression"@ != "super_formal_parameter"@,
        "assignment_expression"@ != "identifier_list"@,
        "assignment_expression"@ != "mixin_application_class"@,
        "assignment_expression"@ != "catch_clause"@,
        "assignment_expression"@ != "import_specification"@,
        "assignment_expression"@ != "combinator"@,
        "member_expression"@ != "null_aware_member_expression"@,
        "member_expression"@ != "cascade_member_expression"@,
        "member_expression"@ != "cascade_null_aware_member_expression"@,
        "member_expression"@ != "formal_parameter"@,
        "member_expression"@ != "constructor_param"@,
        "member_expression"@ != "super_formal_parameter"@,
        "member_expression"@ != "identifier_list"@,
        "member_expression"@ != "mixin_application_class"@,
        "member_expression"@ != "catch_clause"@,
        "member_expression"@ != "import_specification"@,
        "member_expression"@ != "combinator"@,
        "null_aware_member_expression"@ != "cascade_member_expression"@,
        "null_aware_member_expression"@ != "cascade_null_aware_member_expression"@,
        "null_aware_member_expression"@ != "formal_parameter"@,
        "null_aware_member_expression"@ != "constructor_param"@,
        "null_aware_member_expression"@ != "super_formal_parameter"@,
        "null_aware_member_expression"@ != "identifier_list"@,
        "null_aware_member_expression"@ != "mixin_application_class"@,
        "null_aware_member_expression"@ != "catch_clause"@,
        "null_aware_member_expression"@ != "import_specification"@,
        "null_aware_member_expression"@ != "combinator"@,
        "cascade_member_expression"@ != "cascade_null_aware_member_expression"@,
        "cascade_member_expression"@ != "formal_parameter"@,
        "cascade_member_expression"@ != "constructor_param"@,
        "cascade_member_expression"@ != "super_formal_parameter"@,
        "cascade_member_expression"@ != "identifier_list"@,
        "cascade_member_expression"@ != "mixin_application_class"@,
        "cascade_member_expression"@ != "catch_clause"@,
        "cascade_member_expression"@ != "import_specification"@,
        "cascade_member_expression"@ != "combinator"@,
        "cascade_null_aware_member_expression"@ != "formal_parameter"@,
        "cascade_null_aware_member_expression"@ != "constructor_param"@,
        "cascade_null_aware_member_expression"@ != "super_formal_parameter"@,
        "cascade_null_aware_member_expression"@ != "identifier_list"@,
        "cascade_null_aware_member_expression"@ != "mixin_application_class"@,
        "cascade_null_aware_member_expression"@ != "catch_clause"@,
        "cascade_null_aware_member_expression"@ != "import_specification"@,
        "cascade_null_aware_member_expression"@ != "combinator"@,
        "formal_parameter"@ != "constructor_param"@,
        "formal_parameter"@ != "super_formal_parameter"@,
        "formal_parameter"@ != "identifier_list"@,
        "formal_parameter"@ != "mixin_application_class"@,
        "formal_parameter"@ != "catch_clause"@,
        "formal_parameter"@ != "import_specification"@,
        "formal_parameter"@ != "combinator"@,
        "constructor_param"@ != "super_formal_parameter"@,
        "constructor_param"@ != "identifier_list"@,
        "constructor_param"@ != "mixin_application_class"@,
        "constructor_param"@ != "catch_clause"@,
        "constructor_param"@ != "import_specification"@,
        "constructor_param"@ != "combinator"@,
        "super_formal_parameter"@ != "identifier_list"@,
        "super_formal_parameter"@ != "mixin_application_class"@,
        "super_formal_parameter"@ != "catch_clause"@,
        "super_formal_parameter"@ != "import_specification"@,
        "super_formal_parameter"@ != "combinator"@,
        "identifier_list"@ != "mixin_application_class"@,
        "identifier_list"@ != "catch_clause"@,
        "identifier_list"@ != "import_specification"@,
        "identifier_list"@ != "combinator"@,
        "mixin_application_class"@ != "catch_clause"@,
        "mixin_application_class"@ != "import_specification"@,
        "mixin_application_class"@ != "combinator"@,
        "catch_clause"@ != "import_specification"@,
        "catch_clause"@ != "combinator"@,
        "import_specification"@ != "combinator"@,
{
    reveal_strlit("call_expression");
    reveal_strlit("assignable_expression");
    reveal_strlit("assignment_expression");
    reveal_strlit("member_expression");
    reveal_strlit("null_aware_member_expression");
    reveal_strlit("cascade_member_expression");
    reveal_strlit("cascade_null_aware_member_expression");
    reveal_strlit("function_signature");
    reveal_strlit("getter_signature");
    reveal_strlit("setter_signature");
    reveal_strlit("constructor_signature");
    reveal_strlit("constant_constructor_signature");
    reveal_strlit("factory_constructor_signature");
    reveal_strlit("redirecting_factory_constructor_signature");
    reveal_strlit("class_declaration");
    reveal_strlit("mixin_declaration");
    reveal_strlit("enum_declaration");
    reveal_strlit("extension_declaration");
    reveal_strlit("extension_type_declaration");
    reveal_strlit("enum_constant");
    reveal_strlit("typed_identifier");
    reveal_strlit("initialized_identifier");
    reveal_strlit("static_final_declaration");
    reveal_strlit("initialized_variable_definition");
    reveal_strlit("variable_pattern");
    reveal_strlit("for_statement");
    reveal_strlit("for_element");
    reveal_strlit("formal_parameter");
    reveal_strlit("constructor_param");
    reveal_strlit("super_formal_parameter");
    reveal_strlit("identifier_list");
    reveal_strlit("mixin_application_class");
    reveal_strlit("catch_clause");
    reveal_strlit("import_specification");
    reveal_strlit("combinator");
    assert("call_expression"@.len() == 15);
    assert("assignable_expression"@.len() == 21);
    assert("assignment_expression"@.len() == 21);
    assert("member_expression"@.len() == 17);
    assert("null_aware_member_expression"@.len() == 28);
    assert("cascade_member_expression"@.len() == 25);
    assert("cascade_null_aware_member_expression"@.len() == 36);
    assert("function_signature"@.len() == 18);
    assert("getter_signature"@.len() == 16);
    assert("setter_signature"@.len() == 16);
    assert("constructor_signature"@.len() == 21);
    assert("constant_constructor_signature"@.len() == 30);
    assert("factory_constructor_signature"@.len() == 29);
    assert("redirecting_factory_constructor_signature"@.len() == 41);
    assert("class_declaration"@.len() == 17);
    assert("mixin_declaration"@.len() == 17);
    assert("enum_declaration"@.len() == 16);
    assert("extension_declaration"@.len() == 21);
    assert("extension_type_declaration"@.len() == 26);
    assert("enum_constant"@.len() == 13);
    assert("typed_identifier"@.len() == 16);
    assert("initialized_identifier"@.len() == 22);
    assert("static_final_declaration"@.len() == 24);
    assert("initialized_variable_definition"@.len() == 31);
    assert("variable_pattern"@.len() == 16);
    assert("for_statement"@.len() == 13);
    assert("for_element"@.len() == 11);
    assert("formal_parameter"@.len() == 16);
    assert("constructor_param"@.len() == 17);
    assert("super_formal_parameter"@.len() == 22);
    assert("identifier_list"@.len() == 15);
    assert("mixin_application_class"@.len() == 23);
    assert("catch_clause"@.len() == 12);
    assert("import_specification"@.len() == 20);
    assert("combinator"@.len() == 10);
    assert("call_expression"@[0] != "identifier_list"@[0]);
    assert("getter_signature"@[0] != "setter_signature"@[0]);
    assert("getter_signature"@[0] != "enum_declaration"@[0]);
    assert("getter_signature"@[0] != "typed_identifier"@[0]);
    assert("getter_signature"@[0] != "variable_pattern"@[0]);
    assert("getter_signature"@[0] != "formal_parameter"@[0]);
    assert("setter_signature"@[0] != "enum_declaration"@[0]);
    assert("setter_signature"@[0] != "typed_identifier"@[0]);
    assert("setter_signature"@[0] != "variable_pattern"@[0]);
    assert("setter_signature"@[0] != "formal_parameter"@[0]);
    assert("constructor_signature"@[0] != "assignable_expression"@[0]);
    assert("constructor_signature"@[0] != "assignment_expression"@[0]);
    assert("constructor_signature"@[0] != "extension_declaration"@[0]);
    assert("class_declaration"@[0] != "member_expression"@[0]);
    assert("class_declaration"@[0] != "mixin_declaration"@[0]);
    assert("class_declaration"@[1] != "constructor_param"@[1]);
    assert("mixin_declaration"@[1] != "member_expression"@[1]);
    assert("mixin_declaration"@[0] != "constructor_param"@[0]);
    assert("enum_declaration"@[0] != "typed_identifier"@[0]);
    assert("enum_declaration"@[0] != "variable_pattern"@[0]);
    assert("enum_declaration"@[0] != "formal_parameter"@[0]);
    assert("extension_declaration"@[0] != "assignable_expression"@[0]);
    assert("extension_declaration"@[0] != "assignment_expression"@[0]);
    assert("enum_constant"@[0] != "for_statement"@[0]);
    assert("typed_identifier"@[0] != "variable_pattern"@[0]);
    assert("typed_identifier"@[0] != "formal_parameter"@[0]);
    assert("initialized_identifier"@[0] != "super_formal_parameter"@[0]);
    assert("variable_pattern"@[0] != "formal_parameter"@[0]);
    assert("assignable_expression"@[6] != "assignment_expression"@[6]);
    assert("member_expression"@[0] != "constructor_param"@[0]);
}

/// Whether node `n` is an identifier that is long enough and that node `i` assigns to.
pub open spec fn is_assigned(t: Syntax, i: int, n: int) -> bool {
    t.kind(n) == "identifier"@ && long_enough(t.text(n)) && t.kind(i) == "assignment_expression"@
        && (t.child(i, "left"@) matches Some(left) && (left == n || (t.kind(left) == "assignable_expression"@ && t.child(left, "object"@) is None && t.child_of_kind(left, "identifier"@) == Some(n))))
}

/// Each write of a file is of an identifier that is long enough and that an
/// assignment assigns to.
pub proof fn writes_are_targets(t: Syntax, file: Seq<char>, k: int) -> (at: (int, int))
    requires
        t.nested(),
        t.has(0),
        0 <= k < writes_at(t, file, 0).len(),
    ensures
        0 <= at.0 < t.after(0),
        is_assigned(t, at.0, at.1),
        writes_at(t, file, 0)[k] == reference_at(t, file, at.1, t.text(at.1), RefRole::Write),
{
    let items = writes_of_nodes(t, file);
    let is_one = |r: ReferenceView| exists|i: int, n: int| 0 <= i < t.after(0)
        && #[trigger] is_assigned(t, i, n)
        && r == reference_at(t, file, n, t.text(n), RefRole::Write);
    writes_in_document_order(t, file, 0);
    assert forall|i: int, e: int| 0 <= i < t.after(0) && 0 <= e < items(i).len() implies is_one(#[trigger] items(i)[e]) by {
        let n = written(t, t.child(i, "left"@)->0)->0;
        first_of_kind_is_kind(t, t.child(i, "left"@)->0);
        assert(is_assigned(t, i, n));
    }
    in_order_all(items, 0, t.after(0), is_one);
    assert(is_one(writes_at(t, file, 0)[k]));
    choose|i: int, n: int| 0 <= i < t.after(0) && #[trigger] is_assigned(t, i, n)
        && writes_at(t, file, 0)[k] == reference_at(t, file, n, t.text(n), RefRole::Write)
}

// ── Nothing else is defined ──────────────────────────────────────────────────

/// Whether node `i` is of a kind that declares symbols of the kind `kind`.
pub open spec fn declares(t: Syntax, i: int, kind: SymbolKind) -> bool {
    match kind {
        SymbolKind::Class => t.kind(i) == "class_declaration"@
            || t.kind(i) == "extension_declaration"@,
        SymbolKind::Trait => t.kind(i) == "mixin_declaration"@,
        SymbolKind::Enum => t.kind(i) == "enum_declaration"@,
        SymbolKind::TypeAlias => t.kind(i) == "type_alias"@,
        SymbolKind::Function => t.kind(i) == "function_declaration"@
            || t.kind(i) == "external_function_declaration"@,
        SymbolKind::Static => t.kind(i) == "top_level_variable_declaration"@
            || t.kind(i) == "external_variable_declaration"@ || t.kind(i) == "declaration"@,
        SymbolKind::Const => t.kind(i) == "enum_constant"@,
        SymbolKind::Method => t.kind(i) == "method_declaration"@
            || t.kind(i) == "function_signature"@ || t.kind(i) == "getter_signature"@
            || t.kind(i) == "setter_signature"@ || t.kind(i) == "operator_signature"@
            || t.kind(i) == "constructor_signature"@
            || t.kind(i) == "constant_constructor_signature"@
            || t.kind(i) == "factory_constructor_signature"@
            || t.kind(i) == "redirecting_factory_constructor_signature"@,
        _ => false,
    }
}

/// The characters at which the signature of a symbol of the kind `kind` at node
/// `i` ends.
pub open spec fn stops_at(t: Syntax, i: int, kind: SymbolKind) -> Seq<char> {
    match kind { SymbolKind::Method | SymbolKind::Function => "{;="@, SymbolKind::Const => "{;,"@, _ => "{;"@ }
}

/// Whether a symbol stands at a node that declares symbols of its kind, and has the
/// words of the node up to where it stops for a signature.
pub open spec fn is_declared_by(c: Ctx, s: SymbolView) -> bool {
    exists|i: int| #![trigger occurrence_at(c.tree, c.file, i)] s.occ == occurrence_at(
        c.tree,
        c.file,
        i,
    )
        && s.span == span_at(c.tree, i) && declares(c.tree, i, s.kind)
        && s.signature == one_line(c.tree.text(i), stops_at(c.tree, i, s.kind))
}

/// Whether all symbols do.
pub open spec fn all_declared(c: Ctx, symbols: Seq<SymbolView>) -> bool {
    forall|k: int| 0 <= k < symbols.len() ==> is_declared_by(c, #[trigger] symbols[k])
}

proof fn variables_in_declared(c: Ctx, prefix: Seq<DescriptorView>, owner: int, lo: int, hi: int)
    requires
        declares(c.tree, owner, SymbolKind::Static),
    ensures
        all_declared(c, variables_in(c, prefix, owner, lo, hi)),
    decreases hi - lo,
{
    if lo < hi {
        variables_in_declared(c, prefix, owner, c.tree.next(lo, hi), hi);
    }
}

proof fn variable_lists_in_declared(
    c: Ctx,
    prefix: Seq<DescriptorView>,
    owner: int,
    lo: int,
    hi: int,
)
    requires
        declares(c.tree, owner, SymbolKind::Static),
    ensures
        all_declared(c, variable_lists_in(c, prefix, owner, lo, hi)),
    decreases hi - lo,
{
    if lo < hi {
        if is_variable_list(c.tree, lo) {
            variables_in_declared(c, prefix, owner, lo + 1, c.tree.after(lo));
        }
        variable_lists_in_declared(c, prefix, owner, c.tree.next(lo, hi), hi);
    }
}

proof fn signed_in_declared(c: Ctx, prefix: Seq<DescriptorView>, lo: int, hi: int)
    ensures
        all_declared(c, signed_in(c, prefix, lo, hi)),
    decreases hi - lo,
{
    if lo < hi {
        signed_in_declared(c, prefix, c.tree.next(lo, hi), hi);
    }
}

proof fn member_symbols_declared(c: Ctx, prefix: Seq<DescriptorView>, i: int)
    ensures
        all_declared(c, member_symbols(c, prefix, i)),
{
    let t = c.tree;
    if t.kind(i) != "method_declaration"@ && t.kind(i) == "declaration"@ {
        signed_in_declared(c, prefix, i + 1, t.after(i));
        variable_lists_in_declared(c, prefix, i, i + 1, t.after(i));
    }
}

proof fn wrapped_in_declared(c: Ctx, prefix: Seq<DescriptorView>, lo: int, hi: int)
    ensures
        all_declared(c, wrapped_in(c, prefix, lo, hi)),
    decreases hi - lo,
{
    if lo < hi {
        member_symbols_declared(c, prefix, lo);
        wrapped_in_declared(c, prefix, c.tree.next(lo, hi), hi);
    }
}

proof fn members_in_declared(c: Ctx, prefix: Seq<DescriptorView>, lo: int, hi: int)
    ensures
        all_declared(c, members_in(c, prefix, lo, hi)),
    decreases hi - lo,
{
    if lo < hi {
        if c.tree.kind(lo) == "class_member"@ {
            wrapped_in_declared(c, prefix, lo + 1, c.tree.after(lo));
        }
        members_in_declared(c, prefix, c.tree.next(lo, hi), hi);
    }
}

proof fn constants_in_declared(c: Ctx, prefix: Seq<DescriptorView>, lo: int, hi: int)
    ensures
        all_declared(c, constants_in(c, prefix, lo, hi)),
    decreases hi - lo,
{
    if lo < hi {
        constants_in_declared(c, prefix, c.tree.next(lo, hi), hi);
    }
}

proof fn type_symbols_declared(c: Ctx, prefix: Seq<DescriptorView>, kind: SymbolKind, i: int)
    requires
        declares(c.tree, i, kind)
            && (kind == SymbolKind::Class || kind == SymbolKind::Trait || kind == SymbolKind::Enum),
    ensures
        all_declared(c, type_symbols(c, prefix, kind, i)),
{
    let t = c.tree;
    if let Some(name) = name_of_type(t, i) {
        if let Some(body) = t.child(i, "body"@) {
            let inner = prefix + seq![DescriptorView::Type(name)];
            constants_in_declared(c, inner, body + 1, t.after(body));
            members_in_declared(c, inner, body + 1, t.after(body));
        }
    }
}

proof fn symbols_at_declared(c: Ctx, prefix: Seq<DescriptorView>, i: int)
    ensures
        all_declared(c, symbols_at(c, prefix, i)),
{
    let kind = c.tree.kind(i);
    if kind == "class_declaration"@ {
        type_symbols_declared(c, prefix, SymbolKind::Class, i);
    } else if kind == "mixin_declaration"@ {
        type_symbols_declared(c, prefix, SymbolKind::Trait, i);
    } else if kind == "enum_declaration"@ {
        type_symbols_declared(c, prefix, SymbolKind::Enum, i);
    } else if kind == "extension_declaration"@ {
        type_symbols_declared(c, prefix, SymbolKind::Class, i);
    } else if kind != "type_alias"@ {
        if !(kind == "function_declaration"@ || kind == "external_function_declaration"@) {
            if kind == "top_level_variable_declaration"@
                || kind == "external_variable_declaration"@ {
                variable_lists_in_declared(c, prefix, i, i + 1, c.tree.after(i));
            }
        }
    }
}

proof fn definitions_declared(c: Ctx, prefix: Seq<DescriptorView>, lo: int, hi: int)
    ensures
        all_declared(c, symbols_in(c, prefix, lo, hi)),
    decreases hi - lo,
{
    if lo < hi {
        symbols_at_declared(c, prefix, lo);
        definitions_declared(c, prefix, c.tree.next(lo, hi), hi);
    }
}

/// Each definition of a file, but for that of its module, stands at a node that
/// declares symbols of its kind. Its signature is the text of the node on one
/// line, up to where it stops.
pub proof fn definitions_stand_at_declarations(
    t: Syntax,
    file: Seq<char>,
    found: Seq<Seq<CaptureView>>,
    on_self: Seq<Seq<CaptureView>>,
    k: int,
) -> (i: int)
    requires
        0 <= k < facts_of(t, file, found, on_self).symbols.len() - 1,
    ensures
        declares(t, i, facts_of(t, file, found, on_self).symbols[k].kind),
        is_at(facts_of(t, file, found, on_self).symbols[k].occ, file, t, i),
        facts_of(t, file, found, on_self).symbols[k].span.start == t.start(i) as usize,
        facts_of(t, file, found, on_self).symbols[k].span.end == t.end(i) as usize,
        facts_of(t, file, found, on_self).symbols[k].signature == one_line(
            t.text(i),
            stops_at(t, i, facts_of(t, file, found, on_self).symbols[k].kind),
        ),
{
    let c = context(t, file);
    let prefix = steps(t, file);
    let f = facts_of(t, file, found, on_self);
    definitions_declared(c, prefix, 1, t.after(0));
    let defs = symbols_in(c, prefix, 1, t.after(0));
    assert(f.symbols[k] == defs[k]);
    assert(is_declared_by(c, defs[k]));
    choose|i: int| #![trigger occurrence_at(t, file, i)] defs[k].occ == occurrence_at(t, file, i)
        && defs[k].span == span_at(t, i) && declares(t, i, defs[k].kind)
        && defs[k].signature == one_line(t.text(i), stops_at(t, i, defs[k].kind))
}

// ── No other type is referred to ─────────────────────────────────────────────

/// Whether node `i` names a type, by the name `name`.
pub open spec fn names_type(t: Syntax, i: int, name: Seq<char>) -> bool {
    (t.kind(i) == "type_identifier"@ && name == t.text(i) && !is_builtin(name))
        || (t.kind(i) != "type_identifier"@ && t.kind(i) != "type"@ && t.kind(i) != "void_type"@ && name.len() > 0 && name == simple_name(t.text(i), "."@))
}

/// Whether a reference is to a type that a node names, and says where it stands.
pub open spec fn is_of_type(t: Syntax, file: Seq<char>, r: ReferenceView) -> bool {
    &&& r.role == RefRole::TypeRef
    &&& r.type_ref_ctx is Some
    &&& exists|i: int| #![trigger occurrence_at(t, file, i)] r.occ == occurrence_at(t, file, i)
        && names_type(t, i, r.name)
}

/// Whether all references are.
pub open spec fn all_of_types(t: Syntax, file: Seq<char>, references: Seq<ReferenceView>) -> bool {
    forall|k: int| 0 <= k < references.len() ==> is_of_type(t, file, #[trigger] references[k])
}

proof fn leaves_at_typed(t: Syntax, file: Seq<char>, ctx: TypeRefContext, i: int)
    ensures
        all_of_types(t, file, leaves_at(t, file, ctx, i)),
    decreases t.left(i), 0nat,
{
    let kind = t.kind(i);
    if !(!t.has(i) || kind == "void_type"@) {
        if kind != "type_identifier"@ && kind == "type"@ {
            leaves_in_typed(t, file, ctx, i + 1, t.after(i));
        }
    }
}

proof fn leaves_in_typed(t: Syntax, file: Seq<char>, ctx: TypeRefContext, lo: int, hi: int)
    ensures
        all_of_types(t, file, leaves_in(t, file, ctx, lo, hi)),
    decreases t.left(lo), 1nat,
{
    if lo < hi && t.has(lo) {
        if t.named(lo) {
            leaves_at_typed(t, file, ctx, lo);
        }
        leaves_in_typed(t, file, ctx, t.next(lo, hi), hi);
    }
}

proof fn returned_refs_typed(t: Syntax, file: Seq<char>, i: int)
    ensures
        all_of_types(t, file, returned_refs(t, file, i)),
{
    if let Some(ty) = t.child(i, "return_type"@) {
        leaves_at_typed(t, file, TypeRefContext::ReturnType, ty);
    }
}

proof fn typed_refs_typed(t: Syntax, file: Seq<char>, ctx: TypeRefContext, i: int)
    ensures
        all_of_types(t, file, typed_refs(t, file, ctx, i)),
{
    if let Some(ty) = t.child_of_kind(i, "type"@) {
        leaves_at_typed(t, file, ctx, ty);
    }
}

proof fn own_type_refs_typed(t: Syntax, file: Seq<char>, i: int)
    ensures
        all_of_types(t, file, own_type_refs(t, file, i)),
{
    let kind = t.kind(i);
    if is_signature(t, i) {
        returned_refs_typed(t, file, i);
    } else if kind == "formal_parameter"@ {
        typed_refs_typed(t, file, TypeRefContext::ParameterType, i);
    } else if kind == "top_level_variable_declaration"@ || kind == "declaration"@ {
        typed_refs_typed(t, file, TypeRefContext::Field, i);
    }
}

proof fn type_refs_at_typed(t: Syntax, file: Seq<char>, i: int)
    ensures
        all_of_types(t, file, type_refs_at(t, file, i)),
    decreases t.left(i), 0nat,
{
    if t.has(i) {
        own_type_refs_typed(t, file, i);
        type_refs_in_typed(t, file, i + 1, t.after(i));
    }
}

proof fn type_refs_in_typed(t: Syntax, file: Seq<char>, lo: int, hi: int)
    ensures
        all_of_types(t, file, type_refs_in(t, file, lo, hi)),
    decreases t.left(lo), 1nat,
{
    if lo < hi && t.has(lo) {
        type_refs_at_typed(t, file, lo);
        type_refs_in_typed(t, file, t.next(lo, hi), hi);
    }
}

/// Each type reference of a file stands at a node that names a type.
pub proof fn type_references_name_types(t: Syntax, file: Seq<char>, k: int) -> (i: int)
    requires
        0 <= k < type_refs_at(t, file, 0).len(),
    ensures
        type_refs_at(t, file, 0)[k].role == RefRole::TypeRef,
        type_refs_at(t, file, 0)[k].type_ref_ctx is Some,
        is_at(type_refs_at(t, file, 0)[k].occ, file, t, i),
        names_type(t, i, type_refs_at(t, file, 0)[k].name),
{
    type_refs_at_typed(t, file, 0);
    let r = type_refs_at(t, file, 0)[k];
    assert(is_of_type(t, file, r));
    choose|i: int| #![trigger occurrence_at(t, file, i)] r.occ == occurrence_at(t, file, i)
        && names_type(t, i, r.name)
}

// ── All names and places ─────────────────────────────────────────────────────

/// The facts of a file name the file and its language.
pub proof fn facts_name_their_file(
    t: Syntax,
    file: Seq<char>,
    found: Seq<Seq<CaptureView>>,
    on_self: Seq<Seq<CaptureView>>,
)
    ensures
        facts_of(t, file, found, on_self).file == file,
        facts_of(t, file, found, on_self).lang == Language::Dart.tag(),
{
}

/// Each reference has the last scope of the file that holds its place.
pub proof fn references_have_innermost_scopes(
    t: Syntax,
    file: Seq<char>,
    found: Seq<Seq<CaptureView>>,
    on_self: Seq<Seq<CaptureView>>,
    k: int,
)
    requires
        0 <= k < facts_of(t, file, found, on_self).references.len(),
        facts_of(t, file, found, on_self).scopes.len() <= usize::MAX,
    ensures
        is_scoped(
            facts_of(t, file, found, on_self).scopes,
            facts_of(t, file, found, on_self).references[k],
        ),
{
    place_is_scoped(
        facts_of(t, file, found, on_self).scopes,
        facts_of(t, file, found, on_self).references[k],
    );
}

/// Each definition of a file, but for that of its module, is bound in the scope
/// of the file as a whole.
pub proof fn definitions_are_bound(
    t: Syntax,
    file: Seq<char>,
    found: Seq<Seq<CaptureView>>,
    on_self: Seq<Seq<CaptureView>>,
    k: int,
)
    requires
        0 <= k < facts_of(t, file, found, on_self).symbols.len() - 1,
    ensures
        binds_definition(
            facts_of(t, file, found, on_self),
            facts_of(t, file, found, on_self).symbols[k],
        ),
{
    let f = facts_of(t, file, found, on_self);
    let locals = bindings_at(t, f.scopes, 0);
    let c = context(t, file);
    let prefix = steps(t, file);
    let defs = symbols_in(c, prefix, 1, t.after(0));
    let imported: Seq<BindingView> = imports_bound(f.scopes, f.references);
    assert(f.bindings =~= locals + definitions_bound(defs) + imported);
    assert(f.symbols[k] == defs[k]);
    definition_is_bound(f, locals, defs, imported, k);
}

/// Each import of a file is bound in the innermost scope at its place.
pub proof fn imports_are_bound(
    t: Syntax,
    file: Seq<char>,
    found: Seq<Seq<CaptureView>>,
    on_self: Seq<Seq<CaptureView>>,
    k: int,
)
    requires
        0 <= k < facts_of(t, file, found, on_self).references.len(),
        facts_of(t, file, found, on_self).references[k].role == RefRole::Import,
        facts_of(t, file, found, on_self).scopes.len() <= usize::MAX,
    ensures
        binds_import(
            facts_of(t, file, found, on_self),
            facts_of(t, file, found, on_self).references[k],
        ),
{
    let f = facts_of(t, file, found, on_self);
    let locals = bindings_at(t, f.scopes, 0);
    let c = context(t, file);
    let prefix = steps(t, file);
    let defs = symbols_in(c, prefix, 1, t.after(0));
    imported_is_bound(f, locals, defs, k);
}

/// Each name that a file binds is that of a definition or of an import of the
/// file, or is bound to itself in the innermost scope at its place.
pub proof fn bindings_have_origins(
    t: Syntax,
    file: Seq<char>,
    found: Seq<Seq<CaptureView>>,
    on_self: Seq<Seq<CaptureView>>,
    k: int,
)
    requires
        0 <= k < facts_of(t, file, found, on_self).bindings.len(),
        facts_of(t, file, found, on_self).scopes.len() <= usize::MAX,
    ensures
        has_origin(
            facts_of(t, file, found, on_self),
            facts_of(t, file, found, on_self).bindings[k],
        ),
{
    let f = facts_of(t, file, found, on_self);
    let locals = bindings_at(t, f.scopes, 0);
    let c = context(t, file);
    let prefix = steps(t, file);
    let defs = symbols_in(c, prefix, 1, t.after(0));
    let imported: Seq<BindingView> = imports_bound(f.scopes, f.references);
    assert(f.bindings =~= locals + definitions_bound(defs) + imported);
    locals_are_nested(t, f.scopes, 0);
    bound_has_origin(f, locals, defs, imported, k);
}

// ── Calls ────────────────────────────────────────────────────────────────────

/// Each match with a callee that is long enough and a qualifier is a call with
/// that qualifier, unless it is one on the object itself.
pub proof fn calls_are_reported(
    t: Syntax,
    file: Seq<char>,
    found: Seq<Seq<CaptureView>>,
    on_self: Seq<Seq<CaptureView>>,
    k: int,
    c: CaptureView,
    q: CaptureView,
)
    requires
        0 <= k < found.len(),
        captures(found[k], "callee"@, c),
        long_enough(text_between(t.source, c.start, c.end)),
        captures(found[k], "qualifier"@, q),
        !calls_at(on_self, c.start),
    ensures
        calls_name(
            facts_of(t, file, found, on_self),
            c,
            text_between(t.source, c.start, c.end),
            Some(text_between(t.source, q.start, q.end)),
            false,
        ),
{
    call_is_found(t.source, file, found, k, c);
    let plain = plain_call(t.source, file, found[k]);
    mark_is_found(on_self, c.start);
    marked_call_is_found(t.source, file, found, on_self, plain);
    let r = self_marked(on_self, plain);
    in_either(calls_marked(t.source, file, found, on_self), inherits_at(t, file, 0), r);
    in_either(
        calls_marked(t.source, file, found, on_self) + inherits_at(t, file, 0),
        imports_at(t, file, own_module(t, file), 0),
        r,
    );
    in_either(
        calls_marked(t.source, file, found, on_self) + inherits_at(t, file, 0)
            + imports_at(t, file, own_module(t, file), 0),
        type_refs_at(t, file, 0),
        r,
    );
    in_either(
        calls_marked(t.source, file, found, on_self) + inherits_at(t, file, 0)
            + imports_at(t, file, own_module(t, file), 0) + type_refs_at(t, file, 0),
        reads_at(t, file, 0),
        r,
    );
    in_either(
        calls_marked(t.source, file, found, on_self) + inherits_at(t, file, 0)
            + imports_at(t, file, own_module(t, file), 0) + type_refs_at(t, file, 0)
            + reads_at(t, file, 0),
        writes_at(t, file, 0),
        r,
    );
    is_reported(
        facts_of(t, file, found, on_self),
        references_of(t, file, own_module(t, file), found, on_self),
        r,
    );
}

/// Each match with a callee that is long enough and without a qualifier is a
/// call without one.
pub proof fn plain_calls_are_reported(
    t: Syntax,
    file: Seq<char>,
    found: Seq<Seq<CaptureView>>,
    on_self: Seq<Seq<CaptureView>>,
    k: int,
    c: CaptureView,
)
    requires
        0 <= k < found.len(),
        captures(found[k], "callee"@, c),
        long_enough(text_between(t.source, c.start, c.end)),
        lacks(found[k], "qualifier"@),
        !calls_at(on_self, c.start),
    ensures
        calls_name(
            facts_of(t, file, found, on_self),
            c,
            text_between(t.source, c.start, c.end),
            None,
            false,
        ),
{
    call_is_found(t.source, file, found, k, c);
    let plain = plain_call(t.source, file, found[k]);
    mark_is_found(on_self, c.start);
    marked_call_is_found(t.source, file, found, on_self, plain);
    let r = self_marked(on_self, plain);
    in_either(calls_marked(t.source, file, found, on_self), inherits_at(t, file, 0), r);
    in_either(
        calls_marked(t.source, file, found, on_self) + inherits_at(t, file, 0),
        imports_at(t, file, own_module(t, file), 0),
        r,
    );
    in_either(
        calls_marked(t.source, file, found, on_self) + inherits_at(t, file, 0)
            + imports_at(t, file, own_module(t, file), 0),
        type_refs_at(t, file, 0),
        r,
    );
    in_either(
        calls_marked(t.source, file, found, on_self) + inherits_at(t, file, 0)
            + imports_at(t, file, own_module(t, file), 0) + type_refs_at(t, file, 0),
        reads_at(t, file, 0),
        r,
    );
    in_either(
        calls_marked(t.source, file, found, on_self) + inherits_at(t, file, 0)
            + imports_at(t, file, own_module(t, file), 0) + type_refs_at(t, file, 0)
            + reads_at(t, file, 0),
        writes_at(t, file, 0),
        r,
    );
    is_reported(
        facts_of(t, file, found, on_self),
        references_of(t, file, own_module(t, file), found, on_self),
        r,
    );
}

/// A call that the query on calls on the object itself reports at its place is
/// marked as one, without a qualifier.
pub proof fn calls_on_itself_are_marked(
    t: Syntax,
    file: Seq<char>,
    found: Seq<Seq<CaptureView>>,
    on_self: Seq<Seq<CaptureView>>,
    k: int,
    c: CaptureView,
)
    requires
        0 <= k < found.len(),
        captures(found[k], "callee"@, c),
        long_enough(text_between(t.source, c.start, c.end)),
        calls_at(on_self, c.start),
    ensures
        calls_name(
            facts_of(t, file, found, on_self),
            c,
            text_between(t.source, c.start, c.end),
            None,
            true,
        ),
{
    call_is_found(t.source, file, found, k, c);
    let plain = plain_call(t.source, file, found[k]);
    mark_is_found(on_self, c.start);
    marked_call_is_found(t.source, file, found, on_self, plain);
    let r = self_marked(on_self, plain);
    in_either(calls_marked(t.source, file, found, on_self), inherits_at(t, file, 0), r);
    in_either(
        calls_marked(t.source, file, found, on_self) + inherits_at(t, file, 0),
        imports_at(t, file, own_module(t, file), 0),
        r,
    );
    in_either(
        calls_marked(t.source, file, found, on_self) + inherits_at(t, file, 0)
            + imports_at(t, file, own_module(t, file), 0),
        type_refs_at(t, file, 0),
        r,
    );
    in_either(
        calls_marked(t.source, file, found, on_self) + inherits_at(t, file, 0)
            + imports_at(t, file, own_module(t, file), 0) + type_refs_at(t, file, 0),
        reads_at(t, file, 0),
        r,
    );
    in_either(
        calls_marked(t.source, file, found, on_self) + inherits_at(t, file, 0)
            + imports_at(t, file, own_module(t, file), 0) + type_refs_at(t, file, 0)
            + reads_at(t, file, 0),
        writes_at(t, file, 0),
        r,
    );
    is_reported(
        facts_of(t, file, found, on_self),
        references_of(t, file, own_module(t, file), found, on_self),
        r,
    );
}

} // verus!
