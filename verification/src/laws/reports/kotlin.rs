//! What the facts of Kotlin files tell of their nodes.

use crate::extract::kotlin::{
    base_lists_in, base_of, bases_in, bindings_at, bindings_in_document_order,
    bindings_of_nodes, block_scopes, bodies_in, declared_bases, declared_package, declared_type,
    decls_at, decls_in, facts_of, function_parts_in, function_scopes, import_of, imports_at,
    imports_in_document_order, imports_of_nodes, in_code, inherits_at,
    inherits_in_document_order, inherits_of_nodes, introduced, is_type_body, is_type_shape,
    lambda_names_in, lambda_params_in, last_identifier_in, leaves_at, leaves_in, name_in,
    named_behind, named_type_refs_in, namespaces_of, not_read, param_at, param_lists_in,
    params_in, property_type, read_of, reads_at, reads_in_document_order, reads_of_nodes,
    references_of, scopes_with, scopes_with_all, simple_parts_in, type_in, type_refs_at,
    type_refs_in, type_scopes, typed_refs, untyped_parts_in, user_parts_in, user_type_at,
    user_type_in, variables_in, write_of, writes_at, writes_in_document_order, writes_of_nodes,
    written_type,
};
use crate::extract::{
    Ctx, calls_marked, definitions_bound, extends, home_scope, imports_bound, local_binding,
    module_scope, module_view, occurrence_at, reference_at, self_marked, span_at,
    type_reference_at,
};
use crate::graph::types::{
    BindingKind, BindingView, EntryPointView, RefRole, ReferenceView, Scope, ScopeId, ScopeKind,
    SymbolKind, SymbolView, TypeRefContext, Visibility,
};
use crate::items::{in_order_all, in_order_each};
use crate::lang::Language;
use crate::laws::kotlin::{
    definitions_belong, is_defined, is_read, locals_are_nested, reads_are_sound,
};
use crate::laws::{belongs, identifiers_apart};
use crate::parse::CaptureView;
use crate::symbol::{DescriptorView, namespace_steps, scip_text};
use crate::syntax::{Syntax, group_child_bounds};
use crate::text::{
    after_last, before_last, byte_count, has_prefix, has_suffix, one_line, other_suffix,
    own_suffix, segments, simple_name, text_between, without_prefix, without_suffix, word_from,
};
use super::bound::{
    binds_definition, binds_import, bound_has_origin, definition_is_bound, has_origin,
    imported_is_bound, is_scoped, place_is_scoped,
};
use super::calls::{
    call_is_found, calls_at, calls_name, captures, lacks, mark_is_found, marked_call_is_found,
    plain_call,
};
use super::texts::{are_parts, join, joined_comes_apart, prefix_comes_off};
use super::{
    binds, binds_as, child_stands_in_field, defines, defines_as, defines_in, extends_module,
    home_is_innermost, imports, in_either, is_at, is_entered, is_innermost, is_module,
    is_reported, last_index_tells, local_is_bound, long_enough, opens_scope, opens_scope_stays,
    reached_is_behind, refers, refers_to_type, reported, scope_is_within, starts_with,
};
use vstd::prelude::*;

verus! {

broadcast use group_child_bounds;

/// The text of the module of a file.
spec fn own_module(t: Syntax, file: Seq<char>) -> Seq<char> {
    scip_text(
        module_view(Language::Kotlin, namespaces_of(t, file), file, byte_count(t.source) as int).id,
    )
}

/// What the definitions of a file are read from.
spec fn context(t: Syntax, file: Seq<char>) -> Ctx {
    Ctx { tree: t, file, lang: Language::Kotlin }
}

/// The steps that lead to the definitions of a file.
spec fn steps(t: Syntax, file: Seq<char>) -> Seq<DescriptorView> {
    namespace_steps(namespaces_of(t, file))
}

proof fn decls_at_kinds()
    ensures
        "class_declaration"@ != "object_declaration"@,
        "class_declaration"@ != "companion_object"@,
        "class_declaration"@ != "function_declaration"@,
        "class_declaration"@ != "property_declaration"@,
        "class_declaration"@ != "type_alias"@,
        "class_declaration"@ != "enum_entry"@,
        "class_declaration"@ != "secondary_constructor"@,
        "object_declaration"@ != "companion_object"@,
        "object_declaration"@ != "function_declaration"@,
        "object_declaration"@ != "property_declaration"@,
        "object_declaration"@ != "type_alias"@,
        "object_declaration"@ != "enum_entry"@,
        "object_declaration"@ != "secondary_constructor"@,
        "companion_object"@ != "function_declaration"@,
        "companion_object"@ != "property_declaration"@,
        "companion_object"@ != "type_alias"@,
        "companion_object"@ != "enum_entry"@,
        "companion_object"@ != "secondary_constructor"@,
        "function_declaration"@ != "property_declaration"@,
        "function_declaration"@ != "type_alias"@,
        "function_declaration"@ != "enum_entry"@,
        "function_declaration"@ != "secondary_constructor"@,
        "property_declaration"@ != "type_alias"@,
        "property_declaration"@ != "enum_entry"@,
        "property_declaration"@ != "secondary_constructor"@,
        "type_alias"@ != "enum_entry"@,
        "type_alias"@ != "secondary_constructor"@,
        "enum_entry"@ != "secondary_constructor"@,
{
    reveal_strlit("class_declaration");
    reveal_strlit("object_declaration");
    reveal_strlit("companion_object");
    reveal_strlit("function_declaration");
    reveal_strlit("property_declaration");
    reveal_strlit("type_alias");
    reveal_strlit("enum_entry");
    reveal_strlit("secondary_constructor");
    assert("class_declaration"@.len() != "object_declaration"@.len());
    assert("class_declaration"@.len() != "companion_object"@.len());
    assert("class_declaration"@.len() != "function_declaration"@.len());
    assert("class_declaration"@.len() != "property_declaration"@.len());
    assert("class_declaration"@.len() != "type_alias"@.len());
    assert("class_declaration"@.len() != "enum_entry"@.len());
    assert("class_declaration"@.len() != "secondary_constructor"@.len());
    assert("object_declaration"@.len() != "companion_object"@.len());
    assert("object_declaration"@.len() != "function_declaration"@.len());
    assert("object_declaration"@.len() != "property_declaration"@.len());
    assert("object_declaration"@.len() != "type_alias"@.len());
    assert("object_declaration"@.len() != "enum_entry"@.len());
    assert("object_declaration"@.len() != "secondary_constructor"@.len());
    assert("companion_object"@.len() != "function_declaration"@.len());
    assert("companion_object"@.len() != "property_declaration"@.len());
    assert("companion_object"@.len() != "type_alias"@.len());
    assert("companion_object"@.len() != "enum_entry"@.len());
    assert("companion_object"@.len() != "secondary_constructor"@.len());
    assert("function_declaration"@[0] != "property_declaration"@[0]);
    assert("function_declaration"@.len() != "type_alias"@.len());
    assert("function_declaration"@.len() != "enum_entry"@.len());
    assert("function_declaration"@.len() != "secondary_constructor"@.len());
    assert("property_declaration"@.len() != "type_alias"@.len());
    assert("property_declaration"@.len() != "enum_entry"@.len());
    assert("property_declaration"@.len() != "secondary_constructor"@.len());
    assert("type_alias"@[0] != "enum_entry"@[0]);
    assert("type_alias"@.len() != "secondary_constructor"@.len());
    assert("enum_entry"@.len() != "secondary_constructor"@.len());
}

proof fn visibility_at_kinds()
    ensures
        "internal"@ != "protected"@,
        "internal"@ != "private"@,
        "protected"@ != "private"@,
{
    reveal_strlit("internal");
    reveal_strlit("protected");
    reveal_strlit("private");
    assert("internal"@.len() != "protected"@.len());
    assert("internal"@.len() != "private"@.len());
    assert("protected"@.len() != "private"@.len());
}

proof fn declared_type_kinds()
    ensures
        "object_declaration"@ != "class_declaration"@,
        "object_declaration"@ != "companion_object"@,
        "companion_object"@ != "class_declaration"@,
        "function_declaration"@ != "class_declaration"@,
        "function_declaration"@ != "object_declaration"@,
        "function_declaration"@ != "companion_object"@,
        "type_alias"@ != "class_declaration"@,
        "type_alias"@ != "object_declaration"@,
        "type_alias"@ != "companion_object"@,
        "enum_entry"@ != "class_declaration"@,
        "enum_entry"@ != "object_declaration"@,
        "enum_entry"@ != "companion_object"@,
        "secondary_constructor"@ != "class_declaration"@,
        "secondary_constructor"@ != "object_declaration"@,
        "secondary_constructor"@ != "companion_object"@,
{
    reveal_strlit("object_declaration");
    reveal_strlit("class_declaration");
    reveal_strlit("companion_object");
    reveal_strlit("function_declaration");
    reveal_strlit("type_alias");
    reveal_strlit("enum_entry");
    reveal_strlit("secondary_constructor");
    assert("object_declaration"@.len() != "class_declaration"@.len());
    assert("object_declaration"@.len() != "companion_object"@.len());
    assert("companion_object"@.len() != "class_declaration"@.len());
    assert("function_declaration"@.len() != "class_declaration"@.len());
    assert("function_declaration"@.len() != "object_declaration"@.len());
    assert("function_declaration"@.len() != "companion_object"@.len());
    assert("type_alias"@.len() != "class_declaration"@.len());
    assert("type_alias"@.len() != "object_declaration"@.len());
    assert("type_alias"@.len() != "companion_object"@.len());
    assert("enum_entry"@.len() != "class_declaration"@.len());
    assert("enum_entry"@.len() != "object_declaration"@.len());
    assert("enum_entry"@.len() != "companion_object"@.len());
    assert("secondary_constructor"@.len() != "class_declaration"@.len());
    assert("secondary_constructor"@.len() != "object_declaration"@.len());
    assert("secondary_constructor"@.len() != "companion_object"@.len());
}

proof fn introduced_kinds()
    ensures
        "function_declaration"@ != "anonymous_function"@,
        "function_declaration"@ != "secondary_constructor"@,
        "function_declaration"@ != "lambda_literal"@,
        "function_declaration"@ != "property_declaration"@,
        "function_declaration"@ != "for_statement"@,
        "anonymous_function"@ != "secondary_constructor"@,
        "anonymous_function"@ != "lambda_literal"@,
        "anonymous_function"@ != "property_declaration"@,
        "anonymous_function"@ != "for_statement"@,
        "secondary_constructor"@ != "lambda_literal"@,
        "secondary_constructor"@ != "property_declaration"@,
        "secondary_constructor"@ != "for_statement"@,
        "lambda_literal"@ != "property_declaration"@,
        "lambda_literal"@ != "for_statement"@,
        "property_declaration"@ != "for_statement"@,
{
    reveal_strlit("function_declaration");
    reveal_strlit("anonymous_function");
    reveal_strlit("secondary_constructor");
    reveal_strlit("lambda_literal");
    reveal_strlit("property_declaration");
    reveal_strlit("for_statement");
    assert("function_declaration"@.len() != "anonymous_function"@.len());
    assert("function_declaration"@.len() != "secondary_constructor"@.len());
    assert("function_declaration"@.len() != "lambda_literal"@.len());
    assert("function_declaration"@[0] != "property_declaration"@[0]);
    assert("function_declaration"@.len() != "for_statement"@.len());
    assert("anonymous_function"@.len() != "secondary_constructor"@.len());
    assert("anonymous_function"@.len() != "lambda_literal"@.len());
    assert("anonymous_function"@.len() != "property_declaration"@.len());
    assert("anonymous_function"@.len() != "for_statement"@.len());
    assert("secondary_constructor"@.len() != "lambda_literal"@.len());
    assert("secondary_constructor"@.len() != "property_declaration"@.len());
    assert("secondary_constructor"@.len() != "for_statement"@.len());
    assert("lambda_literal"@.len() != "property_declaration"@.len());
    assert("lambda_literal"@.len() != "for_statement"@.len());
    assert("property_declaration"@.len() != "for_statement"@.len());
}

proof fn is_type_shape_kinds()
    ensures
        "function_value_parameters"@ != "user_type"@,
        "function_value_parameters"@ != "nullable_type"@,
        "function_value_parameters"@ != "function_type"@,
        "function_value_parameters"@ != "parenthesized_type"@,
        "function_value_parameters"@ != "non_nullable_type"@,
        "parameter"@ != "user_type"@,
        "parameter"@ != "nullable_type"@,
        "parameter"@ != "function_type"@,
        "parameter"@ != "parenthesized_type"@,
        "parameter"@ != "non_nullable_type"@,
        "class_parameter"@ != "user_type"@,
        "class_parameter"@ != "nullable_type"@,
        "class_parameter"@ != "function_type"@,
        "class_parameter"@ != "parenthesized_type"@,
        "class_parameter"@ != "non_nullable_type"@,
        "variable_declaration"@ != "user_type"@,
        "variable_declaration"@ != "nullable_type"@,
        "variable_declaration"@ != "function_type"@,
        "variable_declaration"@ != "parenthesized_type"@,
        "variable_declaration"@ != "non_nullable_type"@,
        "function_declaration"@ != "user_type"@,
        "function_declaration"@ != "nullable_type"@,
        "function_declaration"@ != "function_type"@,
        "function_declaration"@ != "parenthesized_type"@,
        "function_declaration"@ != "non_nullable_type"@,
{
    reveal_strlit("function_value_parameters");
    reveal_strlit("user_type");
    reveal_strlit("nullable_type");
    reveal_strlit("function_type");
    reveal_strlit("parenthesized_type");
    reveal_strlit("non_nullable_type");
    reveal_strlit("parameter");
    reveal_strlit("class_parameter");
    reveal_strlit("variable_declaration");
    reveal_strlit("function_declaration");
    assert("function_value_parameters"@.len() != "user_type"@.len());
    assert("function_value_parameters"@.len() != "nullable_type"@.len());
    assert("function_value_parameters"@.len() != "function_type"@.len());
    assert("function_value_parameters"@.len() != "parenthesized_type"@.len());
    assert("function_value_parameters"@.len() != "non_nullable_type"@.len());
    assert("parameter"@[0] != "user_type"@[0]);
    assert("parameter"@.len() != "nullable_type"@.len());
    assert("parameter"@.len() != "function_type"@.len());
    assert("parameter"@.len() != "parenthesized_type"@.len());
    assert("parameter"@.len() != "non_nullable_type"@.len());
    assert("class_parameter"@.len() != "user_type"@.len());
    assert("class_parameter"@.len() != "nullable_type"@.len());
    assert("class_parameter"@.len() != "function_type"@.len());
    assert("class_parameter"@.len() != "parenthesized_type"@.len());
    assert("class_parameter"@.len() != "non_nullable_type"@.len());
    assert("variable_declaration"@.len() != "user_type"@.len());
    assert("variable_declaration"@.len() != "nullable_type"@.len());
    assert("variable_declaration"@.len() != "function_type"@.len());
    assert("variable_declaration"@.len() != "parenthesized_type"@.len());
    assert("variable_declaration"@.len() != "non_nullable_type"@.len());
    assert("function_declaration"@.len() != "user_type"@.len());
    assert("function_declaration"@.len() != "nullable_type"@.len());
    assert("function_declaration"@.len() != "function_type"@.len());
    assert("function_declaration"@.len() != "parenthesized_type"@.len());
    assert("function_declaration"@.len() != "non_nullable_type"@.len());
}

proof fn leaves_at_kinds()
    ensures
        "user_type"@ != "type_identifier"@,
        "user_type"@ != "type_arguments"@,
        "type_arguments"@ != "type_identifier"@,
        "simple_user_type"@ != "type_identifier"@,
        "simple_user_type"@ != "user_type"@,
        "simple_user_type"@ != "type_arguments"@,
{
    reveal_strlit("user_type");
    reveal_strlit("type_identifier");
    reveal_strlit("type_arguments");
    reveal_strlit("simple_user_type");
    assert("user_type"@.len() != "type_identifier"@.len());
    assert("user_type"@.len() != "type_arguments"@.len());
    assert("type_arguments"@.len() != "type_identifier"@.len());
    assert("simple_user_type"@.len() != "type_identifier"@.len());
    assert("simple_user_type"@.len() != "user_type"@.len());
    assert("simple_user_type"@.len() != "type_arguments"@.len());
}

proof fn user_parts_in_kinds()
    ensures
        "user_type"@ != "simple_user_type"@,
        "user_type"@ != "type_identifier"@,
        "user_type"@ != "identifier"@,
        "user_type"@ != "type_arguments"@,
        "type_arguments"@ != "simple_user_type"@,
        "type_arguments"@ != "type_identifier"@,
        "type_arguments"@ != "identifier"@,
        "simple_user_type"@ != "type_identifier"@,
        "simple_user_type"@ != "identifier"@,
{
    reveal_strlit("user_type");
    reveal_strlit("simple_user_type");
    reveal_strlit("type_identifier");
    reveal_strlit("identifier");
    reveal_strlit("type_arguments");
    assert("user_type"@.len() != "simple_user_type"@.len());
    assert("user_type"@.len() != "type_identifier"@.len());
    assert("user_type"@.len() != "identifier"@.len());
    assert("user_type"@.len() != "type_arguments"@.len());
    assert("type_arguments"@.len() != "simple_user_type"@.len());
    assert("type_arguments"@.len() != "type_identifier"@.len());
    assert("type_arguments"@.len() != "identifier"@.len());
    assert("simple_user_type"@.len() != "type_identifier"@.len());
    assert("simple_user_type"@.len() != "identifier"@.len());
}

proof fn simple_parts_in_kinds()
    ensures
        "user_type"@ != "type_identifier"@,
        "user_type"@ != "type_arguments"@,
        "type_arguments"@ != "type_identifier"@,
        "simple_user_type"@ != "type_identifier"@,
        "simple_user_type"@ != "type_arguments"@,
{
    reveal_strlit("user_type");
    reveal_strlit("type_identifier");
    reveal_strlit("type_arguments");
    reveal_strlit("simple_user_type");
    assert("user_type"@.len() != "type_identifier"@.len());
    assert("user_type"@.len() != "type_arguments"@.len());
    assert("type_arguments"@.len() != "type_identifier"@.len());
    assert("simple_user_type"@.len() != "type_identifier"@.len());
    assert("simple_user_type"@.len() != "type_arguments"@.len());
}

proof fn type_refs_at_kinds()
    ensures
        "parameter"@ != "class_parameter"@,
        "parameter"@ != "function_declaration"@,
        "parameter"@ != "variable_declaration"@,
        "class_parameter"@ != "function_declaration"@,
        "class_parameter"@ != "variable_declaration"@,
        "variable_declaration"@ != "function_declaration"@,
{
    reveal_strlit("parameter");
    reveal_strlit("class_parameter");
    reveal_strlit("function_declaration");
    reveal_strlit("variable_declaration");
    assert("parameter"@.len() != "class_parameter"@.len());
    assert("parameter"@.len() != "function_declaration"@.len());
    assert("parameter"@.len() != "variable_declaration"@.len());
    assert("class_parameter"@.len() != "function_declaration"@.len());
    assert("class_parameter"@.len() != "variable_declaration"@.len());
    assert("variable_declaration"@[0] != "function_declaration"@[0]);
}

proof fn function_parts_in_kinds()
    ensures
        "parameter"@ != "function_value_parameters"@,
        "class_parameter"@ != "function_value_parameters"@,
        "variable_declaration"@ != "function_value_parameters"@,
        "function_declaration"@ != "function_value_parameters"@,
{
    reveal_strlit("parameter");
    reveal_strlit("function_value_parameters");
    reveal_strlit("class_parameter");
    reveal_strlit("variable_declaration");
    reveal_strlit("function_declaration");
    assert("parameter"@.len() != "function_value_parameters"@.len());
    assert("class_parameter"@.len() != "function_value_parameters"@.len());
    assert("variable_declaration"@.len() != "function_value_parameters"@.len());
    assert("function_declaration"@.len() != "function_value_parameters"@.len());
}

proof fn scopes_with_kinds()
    ensures
        "class_declaration"@ != "object_declaration"@,
        "class_declaration"@ != "companion_object"@,
        "class_declaration"@ != "function_declaration"@,
        "class_declaration"@ != "anonymous_function"@,
        "class_declaration"@ != "secondary_constructor"@,
        "class_declaration"@ != "lambda_literal"@,
        "class_declaration"@ != "block"@,
        "object_declaration"@ != "companion_object"@,
        "object_declaration"@ != "function_declaration"@,
        "object_declaration"@ != "anonymous_function"@,
        "object_declaration"@ != "secondary_constructor"@,
        "object_declaration"@ != "lambda_literal"@,
        "object_declaration"@ != "block"@,
        "companion_object"@ != "function_declaration"@,
        "companion_object"@ != "anonymous_function"@,
        "companion_object"@ != "secondary_constructor"@,
        "companion_object"@ != "lambda_literal"@,
        "companion_object"@ != "block"@,
        "function_declaration"@ != "anonymous_function"@,
        "function_declaration"@ != "secondary_constructor"@,
        "function_declaration"@ != "lambda_literal"@,
        "function_declaration"@ != "block"@,
        "anonymous_function"@ != "secondary_constructor"@,
        "anonymous_function"@ != "lambda_literal"@,
        "anonymous_function"@ != "block"@,
        "secondary_constructor"@ != "lambda_literal"@,
        "secondary_constructor"@ != "block"@,
        "lambda_literal"@ != "block"@,
{
    reveal_strlit("class_declaration");
    reveal_strlit("object_declaration");
    reveal_strlit("companion_object");
    reveal_strlit("function_declaration");
    reveal_strlit("anonymous_function");
    reveal_strlit("secondary_constructor");
    reveal_strlit("lambda_literal");
    reveal_strlit("block");
    assert("class_declaration"@.len() != "object_declaration"@.len());
    assert("class_declaration"@.len() != "companion_object"@.len());
    assert("class_declaration"@.len() != "function_declaration"@.len());
    assert("class_declaration"@.len() != "anonymous_function"@.len());
    assert("class_declaration"@.len() != "secondary_constructor"@.len());
    assert("class_declaration"@.len() != "lambda_literal"@.len());
    assert("class_declaration"@.len() != "block"@.len());
    assert("object_declaration"@.len() != "companion_object"@.len());
    assert("object_declaration"@.len() != "function_declaration"@.len());
    assert("object_declaration"@[0] != "anonymous_function"@[0]);
    assert("object_declaration"@.len() != "secondary_constructor"@.len());
    assert("object_declaration"@.len() != "lambda_literal"@.len());
    assert("object_declaration"@.len() != "block"@.len());
    assert("companion_object"@.len() != "function_declaration"@.len());
    assert("companion_object"@.len() != "anonymous_function"@.len());
    assert("companion_object"@.len() != "secondary_constructor"@.len());
    assert("companion_object"@.len() != "lambda_literal"@.len());
    assert("companion_object"@.len() != "block"@.len());
    assert("function_declaration"@.len() != "anonymous_function"@.len());
    assert("function_declaration"@.len() != "secondary_constructor"@.len());
    assert("function_declaration"@.len() != "lambda_literal"@.len());
    assert("function_declaration"@.len() != "block"@.len());
    assert("anonymous_function"@.len() != "secondary_constructor"@.len());
    assert("anonymous_function"@.len() != "lambda_literal"@.len());
    assert("anonymous_function"@.len() != "block"@.len());
    assert("secondary_constructor"@.len() != "lambda_literal"@.len());
    assert("secondary_constructor"@.len() != "block"@.len());
    assert("lambda_literal"@.len() != "block"@.len());
}

proof fn is_type_body_kinds()
    ensures
        "class_declaration"@ != "class_body"@,
        "class_declaration"@ != "enum_class_body"@,
        "object_declaration"@ != "class_body"@,
        "object_declaration"@ != "enum_class_body"@,
        "companion_object"@ != "class_body"@,
        "companion_object"@ != "enum_class_body"@,
        "function_declaration"@ != "class_body"@,
        "function_declaration"@ != "enum_class_body"@,
        "anonymous_function"@ != "class_body"@,
        "anonymous_function"@ != "enum_class_body"@,
        "secondary_constructor"@ != "class_body"@,
        "secondary_constructor"@ != "enum_class_body"@,
        "lambda_literal"@ != "class_body"@,
        "lambda_literal"@ != "enum_class_body"@,
        "block"@ != "class_body"@,
        "block"@ != "enum_class_body"@,
        "function_body"@ != "class_body"@,
        "function_body"@ != "enum_class_body"@,
{
    reveal_strlit("class_declaration");
    reveal_strlit("class_body");
    reveal_strlit("enum_class_body");
    reveal_strlit("object_declaration");
    reveal_strlit("companion_object");
    reveal_strlit("function_declaration");
    reveal_strlit("anonymous_function");
    reveal_strlit("secondary_constructor");
    reveal_strlit("lambda_literal");
    reveal_strlit("block");
    reveal_strlit("function_body");
    assert("class_declaration"@.len() != "class_body"@.len());
    assert("class_declaration"@.len() != "enum_class_body"@.len());
    assert("object_declaration"@.len() != "class_body"@.len());
    assert("object_declaration"@.len() != "enum_class_body"@.len());
    assert("companion_object"@.len() != "class_body"@.len());
    assert("companion_object"@.len() != "enum_class_body"@.len());
    assert("function_declaration"@.len() != "class_body"@.len());
    assert("function_declaration"@.len() != "enum_class_body"@.len());
    assert("anonymous_function"@.len() != "class_body"@.len());
    assert("anonymous_function"@.len() != "enum_class_body"@.len());
    assert("secondary_constructor"@.len() != "class_body"@.len());
    assert("secondary_constructor"@.len() != "enum_class_body"@.len());
    assert("lambda_literal"@.len() != "class_body"@.len());
    assert("lambda_literal"@.len() != "enum_class_body"@.len());
    assert("block"@.len() != "class_body"@.len());
    assert("block"@.len() != "enum_class_body"@.len());
    assert("function_body"@.len() != "class_body"@.len());
    assert("function_body"@.len() != "enum_class_body"@.len());
}

proof fn reads_reported(
    t: Syntax,
    file: Seq<char>,
    found: Seq<Seq<CaptureView>>,
    on_self: Seq<Seq<CaptureView>>,
    i: int,
    r: ReferenceView,
)
    requires
        t.nested(),
        0 <= i < t.after(0),
        forall|j: int, k: int| t.has(j) && t.kind(j) == "identifier"@
            && j < k < #[trigger] t.after(j)
            ==> #[trigger] t.kind(k) != "identifier"@,
        read_of(t, file, i).contains(r),
    ensures
        reported(facts_of(t, file, found, on_self), r),
{
    reads_in_document_order(t, file, 0);
    let k = choose|k: int| 0 <= k < read_of(t, file, i).len() && read_of(t, file, i)[k] == r;
    in_order_each(reads_of_nodes(t, file), 0, t.after(0), i, k);
    assert(reads_at(t, file, 0).contains(r));
    in_either(
        calls_marked(t.source, file, found, on_self) + inherits_at(t, file, 0)
            + imports_at(t, file, own_module(t, file), 0) + type_refs_at(t, file, 0),
        reads_at(t, file, 0),
        r,
    );
    in_either(
        calls_marked(t.source, file, found, on_self) + inherits_at(t, file, 0)
            + imports_at(t, file, own_module(t, file), 0) + type_refs_at(t, file, 0)
            + reads_at(t, file, 0),
        writes_at(t, file, 0),
        r,
    );
    is_reported(
        facts_of(t, file, found, on_self),
        references_of(t, file, own_module(t, file), found, on_self),
        r,
    );
}

proof fn writes_reported(
    t: Syntax,
    file: Seq<char>,
    found: Seq<Seq<CaptureView>>,
    on_self: Seq<Seq<CaptureView>>,
    i: int,
    r: ReferenceView,
)
    requires
        t.nested(),
        0 <= i < t.after(0),
        write_of(t, file, i).contains(r),
    ensures
        reported(facts_of(t, file, found, on_self), r),
{
    writes_in_document_order(t, file, 0);
    let k = choose|k: int| 0 <= k < write_of(t, file, i).len() && write_of(t, file, i)[k] == r;
    in_order_each(writes_of_nodes(t, file), 0, t.after(0), i, k);
    assert(writes_at(t, file, 0).contains(r));
    in_either(
        calls_marked(t.source, file, found, on_self) + inherits_at(t, file, 0)
            + imports_at(t, file, own_module(t, file), 0) + type_refs_at(t, file, 0)
            + reads_at(t, file, 0),
        writes_at(t, file, 0),
        r,
    );
    is_reported(
        facts_of(t, file, found, on_self),
        references_of(t, file, own_module(t, file), found, on_self),
        r,
    );
}

proof fn bindings_reported(
    t: Syntax,
    file: Seq<char>,
    found: Seq<Seq<CaptureView>>,
    on_self: Seq<Seq<CaptureView>>,
    i: int,
    b: BindingView,
)
    requires
        t.nested(),
        0 <= i < t.after(0),
        introduced(t, facts_of(t, file, found, on_self).scopes, i).contains(b),
    ensures
        facts_of(t, file, found, on_self).bindings.contains(b),
{
    let scopes = facts_of(t, file, found, on_self).scopes;
    bindings_in_document_order(t, scopes, 0);
    let k = choose|k: int| 0 <= k < introduced(t, scopes, i).len()
        && introduced(t, scopes, i)[k] == b;
    in_order_each(bindings_of_nodes(t, scopes), 0, t.after(0), i, k);
    assert(bindings_at(t, scopes, 0).contains(b));
    starts_with(
        facts_of(t, file, found, on_self).bindings,
        bindings_at(t, facts_of(t, file, found, on_self).scopes, 0),
        b,
    );
}

proof fn inherits_reported(
    t: Syntax,
    file: Seq<char>,
    found: Seq<Seq<CaptureView>>,
    on_self: Seq<Seq<CaptureView>>,
    i: int,
    r: ReferenceView,
)
    requires
        t.nested(),
        0 <= i < t.after(0),
        declared_bases(t, file, i).contains(r),
    ensures
        reported(facts_of(t, file, found, on_self), r),
{
    inherits_in_document_order(t, file, 0);
    let k = choose|k: int| 0 <= k < declared_bases(t, file, i).len()
        && declared_bases(t, file, i)[k] == r;
    in_order_each(inherits_of_nodes(t, file), 0, t.after(0), i, k);
    assert(inherits_at(t, file, 0).contains(r));
    in_either(calls_marked(t.source, file, found, on_self), inherits_at(t, file, 0), r);
    in_either(
        calls_marked(t.source, file, found, on_self) + inherits_at(t, file, 0),
        imports_at(t, file, own_module(t, file), 0),
        r,
    );
    in_either(
        calls_marked(t.source, file, found, on_self) + inherits_at(t, file, 0)
            + imports_at(t, file, own_module(t, file), 0),
        type_refs_at(t, file, 0),
        r,
    );
    in_either(
        calls_marked(t.source, file, found, on_self) + inherits_at(t, file, 0)
            + imports_at(t, file, own_module(t, file), 0) + type_refs_at(t, file, 0),
        reads_at(t, file, 0),
        r,
    );
    in_either(
        calls_marked(t.source, file, found, on_self) + inherits_at(t, file, 0)
            + imports_at(t, file, own_module(t, file), 0) + type_refs_at(t, file, 0)
            + reads_at(t, file, 0),
        writes_at(t, file, 0),
        r,
    );
    is_reported(
        facts_of(t, file, found, on_self),
        references_of(t, file, own_module(t, file), found, on_self),
        r,
    );
}

proof fn imports_reported(
    t: Syntax,
    file: Seq<char>,
    found: Seq<Seq<CaptureView>>,
    on_self: Seq<Seq<CaptureView>>,
    i: int,
    r: ReferenceView,
)
    requires
        t.nested(),
        0 <= i < t.after(0),
        forall|j: int, k: int| t.has(j) && t.kind(j) == "import"@ && j < k < #[trigger] t.after(j)
            ==> #[trigger] t.kind(k) != "import"@,
        import_of(t, file, own_module(t, file), i).contains(r),
    ensures
        reported(facts_of(t, file, found, on_self), r),
{
    imports_in_document_order(t, file, own_module(t, file), 0);
    let k = choose|k: int| 0 <= k < import_of(t, file, own_module(t, file), i).len()
        && import_of(t, file, own_module(t, file), i)[k] == r;
    in_order_each(imports_of_nodes(t, file, own_module(t, file)), 0, t.after(0), i, k);
    assert(imports_at(t, file, own_module(t, file), 0).contains(r));
    in_either(
        calls_marked(t.source, file, found, on_self) + inherits_at(t, file, 0),
        imports_at(t, file, own_module(t, file), 0),
        r,
    );
    in_either(
        calls_marked(t.source, file, found, on_self) + inherits_at(t, file, 0)
            + imports_at(t, file, own_module(t, file), 0),
        type_refs_at(t, file, 0),
        r,
    );
    in_either(
        calls_marked(t.source, file, found, on_self) + inherits_at(t, file, 0)
            + imports_at(t, file, own_module(t, file), 0) + type_refs_at(t, file, 0),
        reads_at(t, file, 0),
        r,
    );
    in_either(
        calls_marked(t.source, file, found, on_self) + inherits_at(t, file, 0)
            + imports_at(t, file, own_module(t, file), 0) + type_refs_at(t, file, 0)
            + reads_at(t, file, 0),
        writes_at(t, file, 0),
        r,
    );
    is_reported(
        facts_of(t, file, found, on_self),
        references_of(t, file, own_module(t, file), found, on_self),
        r,
    );
}

proof fn bodies_in_has(c: Ctx, prefix: Seq<DescriptorView>, lo: int, hi: int, j: int, x: SymbolView)
    requires
        0 <= lo,
        hi <= c.tree.len(),
        c.tree.reaches(lo, hi, j),
        ((if is_type_body(c.tree, j) { decls_in(c, prefix, true, j + 1, c.tree.after(j)) } else { Seq::empty() })).contains(
            x,
        ),
    ensures
        bodies_in(c, prefix, lo, hi).contains(x),
    decreases hi - lo,
{
    let own = (if is_type_body(c.tree, lo) { decls_in(c, prefix, true, lo + 1, c.tree.after(lo)) } else { Seq::empty() });
    let rest = bodies_in(c, prefix, c.tree.next(lo, hi), hi);
    if j != lo {
        bodies_in_has(c, prefix, c.tree.next(lo, hi), hi, j, x);
    }
    in_either(own, rest, x);
}

proof fn decls_in_has(
    c: Ctx,
    prefix: Seq<DescriptorView>,
    inside: bool,
    lo: int,
    hi: int,
    j: int,
    x: SymbolView,
)
    requires
        0 <= lo,
        hi <= c.tree.len(),
        c.tree.reaches(lo, hi, j),
        decls_at(c, prefix, inside, j).contains(x),
    ensures
        decls_in(c, prefix, inside, lo, hi).contains(x),
    decreases hi - lo,
{
    let own = decls_at(c, prefix, inside, lo);
    let rest = decls_in(c, prefix, inside, c.tree.next(lo, hi), hi);
    if j != lo {
        decls_in_has(c, prefix, inside, c.tree.next(lo, hi), hi, j, x);
    }
    in_either(own, rest, x);
}

proof fn simple_parts_in_has(
    t: Syntax,
    file: Seq<char>,
    ctx: TypeRefContext,
    lo: int,
    hi: int,
    j: int,
    x: ReferenceView,
)
    requires
        0 <= lo,
        hi <= t.len(),
        t.reaches(lo, hi, j),
        ((if !t.named(j) { Seq::empty() } else if t.kind(j) == "type_identifier"@ { seq![type_reference_at(t, file, j, t.text(j), ctx)] } else if t.kind(j) == "type_arguments"@ { leaves_at(t, file, TypeRefContext::GenericArg, j) } else { Seq::empty() })).contains(
            x,
        ),
    ensures
        simple_parts_in(t, file, ctx, lo, hi).contains(x),
    decreases hi - lo,
{
    let own = (if !t.named(lo) { Seq::empty() } else if t.kind(lo) == "type_identifier"@ { seq![type_reference_at(t, file, lo, t.text(lo), ctx)] } else if t.kind(lo) == "type_arguments"@ { leaves_at(t, file, TypeRefContext::GenericArg, lo) } else { Seq::empty() });
    let rest = simple_parts_in(t, file, ctx, t.next(lo, hi), hi);
    if j != lo {
        simple_parts_in_has(t, file, ctx, t.next(lo, hi), hi, j, x);
    }
    in_either(own, rest, x);
}

proof fn user_parts_in_has(
    t: Syntax,
    file: Seq<char>,
    ctx: TypeRefContext,
    lo: int,
    hi: int,
    j: int,
    x: ReferenceView,
)
    requires
        0 <= lo,
        hi <= t.len(),
        t.reaches(lo, hi, j),
        ((if !t.named(j) { Seq::empty() } else if t.kind(j) == "simple_user_type"@ { simple_parts_in(t, file, ctx, j + 1, t.after(j)) } else if t.kind(j) == "type_identifier"@ || t.kind(j) == "identifier"@ { seq![type_reference_at(t, file, j, t.text(j), ctx)] } else if t.kind(j) == "type_arguments"@ { leaves_at(t, file, TypeRefContext::GenericArg, j) } else { Seq::empty() })).contains(
            x,
        ),
    ensures
        user_parts_in(t, file, ctx, lo, hi).contains(x),
    decreases hi - lo,
{
    let own = (if !t.named(lo) { Seq::empty() } else if t.kind(lo) == "simple_user_type"@ { simple_parts_in(t, file, ctx, lo + 1, t.after(lo)) } else if t.kind(lo) == "type_identifier"@ || t.kind(lo) == "identifier"@ { seq![type_reference_at(t, file, lo, t.text(lo), ctx)] } else if t.kind(lo) == "type_arguments"@ { leaves_at(t, file, TypeRefContext::GenericArg, lo) } else { Seq::empty() });
    let rest = user_parts_in(t, file, ctx, t.next(lo, hi), hi);
    if j != lo {
        user_parts_in_has(t, file, ctx, t.next(lo, hi), hi, j, x);
    }
    in_either(own, rest, x);
}

proof fn leaves_in_has(
    t: Syntax,
    file: Seq<char>,
    ctx: TypeRefContext,
    lo: int,
    hi: int,
    j: int,
    x: ReferenceView,
)
    requires
        0 <= lo,
        hi <= t.len(),
        t.reaches(lo, hi, j),
        ((if t.named(j) { leaves_at(t, file, ctx, j) } else { Seq::empty() })).contains(x),
    ensures
        leaves_in(t, file, ctx, lo, hi).contains(x),
    decreases hi - lo,
{
    let own = (if t.named(lo) { leaves_at(t, file, ctx, lo) } else { Seq::empty() });
    let rest = leaves_in(t, file, ctx, t.next(lo, hi), hi);
    if j != lo {
        leaves_in_has(t, file, ctx, t.next(lo, hi), hi, j, x);
    }
    in_either(own, rest, x);
}

proof fn params_in_has(t: Syntax, scopes: Seq<Scope>, lo: int, hi: int, j: int, x: BindingView)
    requires
        0 <= lo,
        hi <= t.len(),
        t.reaches(lo, hi, j),
        param_at(t, scopes, j).contains(x),
    ensures
        params_in(t, scopes, lo, hi).contains(x),
    decreases hi - lo,
{
    let own = param_at(t, scopes, lo);
    let rest = params_in(t, scopes, t.next(lo, hi), hi);
    if j != lo {
        params_in_has(t, scopes, t.next(lo, hi), hi, j, x);
    }
    in_either(own, rest, x);
}

proof fn param_lists_in_has(t: Syntax, scopes: Seq<Scope>, lo: int, hi: int, j: int, x: BindingView)
    requires
        0 <= lo,
        hi <= t.len(),
        t.reaches(lo, hi, j),
        ((if t.kind(j) == "function_value_parameters"@ { params_in(t, scopes, j + 1, t.after(j)) } else { Seq::empty() })).contains(
            x,
        ),
    ensures
        param_lists_in(t, scopes, lo, hi).contains(x),
    decreases hi - lo,
{
    let own = (if t.kind(lo) == "function_value_parameters"@ { params_in(t, scopes, lo + 1, t.after(lo)) } else { Seq::empty() });
    let rest = param_lists_in(t, scopes, t.next(lo, hi), hi);
    if j != lo {
        param_lists_in_has(t, scopes, t.next(lo, hi), hi, j, x);
    }
    in_either(own, rest, x);
}

proof fn lambda_names_in_has(
    t: Syntax,
    scopes: Seq<Scope>,
    lo: int,
    hi: int,
    j: int,
    x: BindingView,
)
    requires
        0 <= lo,
        hi <= t.len(),
        t.reaches(lo, hi, j),
        ((match t.child_of_kind(j, "identifier"@) { Some(n) => if t.kind(j) == "variable_declaration"@ { seq![local_binding(scopes, t.text(n), t.start(n), BindingKind::Param, None)] } else { Seq::empty() }, None => Seq::empty(), })).contains(
            x,
        ),
    ensures
        lambda_names_in(t, scopes, lo, hi).contains(x),
    decreases hi - lo,
{
    let own = (match t.child_of_kind(lo, "identifier"@) { Some(n) => if t.kind(lo) == "variable_declaration"@ { seq![local_binding(scopes, t.text(n), t.start(n), BindingKind::Param, None)] } else { Seq::empty() }, None => Seq::empty(), });
    let rest = lambda_names_in(t, scopes, t.next(lo, hi), hi);
    if j != lo {
        lambda_names_in_has(t, scopes, t.next(lo, hi), hi, j, x);
    }
    in_either(own, rest, x);
}

proof fn lambda_params_in_has(
    t: Syntax,
    scopes: Seq<Scope>,
    lo: int,
    hi: int,
    j: int,
    x: BindingView,
)
    requires
        0 <= lo,
        hi <= t.len(),
        t.reaches(lo, hi, j),
        ((if t.kind(j) == "lambda_parameters"@ { lambda_names_in(t, scopes, j + 1, t.after(j)) } else { Seq::empty() })).contains(
            x,
        ),
    ensures
        lambda_params_in(t, scopes, lo, hi).contains(x),
    decreases hi - lo,
{
    let own = (if t.kind(lo) == "lambda_parameters"@ { lambda_names_in(t, scopes, lo + 1, t.after(lo)) } else { Seq::empty() });
    let rest = lambda_params_in(t, scopes, t.next(lo, hi), hi);
    if j != lo {
        lambda_params_in_has(t, scopes, t.next(lo, hi), hi, j, x);
    }
    in_either(own, rest, x);
}

proof fn bases_in_has(t: Syntax, file: Seq<char>, lo: int, hi: int, j: int, x: ReferenceView)
    requires
        0 <= lo,
        hi <= t.len(),
        t.reaches(lo, hi, j),
        base_of(t, file, j).contains(x),
    ensures
        bases_in(t, file, lo, hi).contains(x),
    decreases hi - lo,
{
    let own = base_of(t, file, lo);
    let rest = bases_in(t, file, t.next(lo, hi), hi);
    if j != lo {
        bases_in_has(t, file, t.next(lo, hi), hi, j, x);
    }
    in_either(own, rest, x);
}

proof fn base_lists_in_has(t: Syntax, file: Seq<char>, lo: int, hi: int, j: int, x: ReferenceView)
    requires
        0 <= lo,
        hi <= t.len(),
        t.reaches(lo, hi, j),
        ((if t.kind(j) == "delegation_specifiers"@ { bases_in(t, file, j + 1, t.after(j)) } else { Seq::empty() })).contains(
            x,
        ),
    ensures
        base_lists_in(t, file, lo, hi).contains(x),
    decreases hi - lo,
{
    let own = (if t.kind(lo) == "delegation_specifiers"@ { bases_in(t, file, lo + 1, t.after(lo)) } else { Seq::empty() });
    let rest = base_lists_in(t, file, t.next(lo, hi), hi);
    if j != lo {
        base_lists_in_has(t, file, t.next(lo, hi), hi, j, x);
    }
    in_either(own, rest, x);
}

/// Whether a node declares a type.
pub open spec fn is_type(t: Syntax, i: int) -> bool {
    ||| t.kind(i) == "class_declaration"@ && t.child(i, "name"@) is Some
    ||| t.kind(i) == "object_declaration"@ && t.child(i, "name"@) is Some
    ||| t.kind(i) == "companion_object"@
}

/// Whether a node is the body of a type.
pub open spec fn is_body(t: Syntax, i: int) -> bool {
    t.kind(i) == "class_body"@ || t.kind(i) == "enum_class_body"@
}

/// Whether node `i` stands at the top of the file, or in a body of a type that is
/// placed so.
pub open spec fn is_placed(t: Syntax, i: int) -> bool
    decreases i,
{
    t.has_child(0, i) || exists|owner: int, body: int|
        #![trigger t.has_child(owner, body), t.has_child(body, i)]
        0 < owner < body < i && is_placed(t, owner) && is_type(t, owner) && t.has_child(owner, body)
            && is_body(t, body) && t.has_child(body, i)
}

/// What the visibility modifier of node `i` makes it: public without any.
pub open spec fn shown(t: Syntax, i: int) -> Visibility {
    match t.child_of_kind(i, "modifiers"@) {
        Some(m) => match t.child_of_kind(m, "visibility_modifier"@) {
            Some(v) => if t.text(v) == "private"@ {
                Visibility::Private
            } else if t.text(v) == "protected"@ {
                Visibility::Protected
            } else if t.text(v) == "internal"@ {
                Visibility::Internal
            } else {
                Visibility::Public
            },
            None => Visibility::Public,
        },
        None => Visibility::Public,
    }
}

/// The steps under which a node is defined.
proof fn declaration_is_placed(
    c: Ctx,
    prefix: Seq<DescriptorView>,
    i: int,
) -> (at: Seq<DescriptorView>)
    requires
        is_placed(c.tree, i),
        c.tree.has(i),
    ensures
        forall|x: SymbolView| #[trigger] decls_at(c, at, is_inner(c.tree, i), i).contains(x)
            ==> decls_in(c, prefix, false, 1, c.tree.after(0)).contains(x),
    decreases i,
{
    decls_at_kinds();
    let t = c.tree;
    if t.has_child(0, i) {
        assert forall|x: SymbolView| #[trigger] decls_at(c, prefix, is_inner(t, i), i).contains(x) implies decls_in(c, prefix, false, 1, t.after(0)).contains(x) by {
            decls_in_has(c, prefix, false, 1, t.after(0), i, x);
        }
        prefix
    } else {
        let (owner, body) = choose|owner: int, body: int|
            #![trigger t.has_child(owner, body), t.has_child(body, i)]
            0 < owner < body < i && is_placed(t, owner) && is_type(t, owner)
                && t.has_child(owner, body) && is_body(t, body) && t.has_child(body, i);
        let own = declaration_is_placed(c, prefix, owner);
        let found = declared_type(t, owner)->0;
        let leaf = DescriptorView::Type(found.1);
        let at = own + seq![leaf];
        let inner = is_inner(t, owner);
        reached_is_behind(t, owner + 1, t.after(owner), body);
        assert forall|x: SymbolView| #[trigger] decls_at(c, at, is_inner(t, i), i).contains(x) implies decls_in(c, prefix, false, 1, t.after(0)).contains(x) by {
            decls_in_has(c, at, true, body + 1, t.after(body), i, x);
            bodies_in_has(c, at, owner + 1, t.after(owner), body, x);
            let first = seq![decls_at(c, own, inner, owner)[0]];
            let rest = bodies_in(c, at, owner + 1, t.after(owner));
            assert(decls_at(c, own, inner, owner) =~= first + rest);
            in_either(first, rest, x);
            assert(decls_at(c, own, inner, owner).contains(x));
        }
        at
    }
}

/// Whether node `i` does not stand at the top of the file.
spec fn is_inner(t: Syntax, i: int) -> bool {
    !t.has_child(0, i)
}

/// A class with a name at the top of a Kotlin file or in a type is defined: as
/// an enum where it has the body of one, as an interface where the word stands
/// before its name, as a class otherwise.
pub proof fn classes_are_defined(
    t: Syntax,
    file: Seq<char>,
    found: Seq<Seq<CaptureView>>,
    on_self: Seq<Seq<CaptureView>>,
    i: int,
    n: int,
)
    requires
        is_placed(t, i),
        t.has(i),
        t.kind(i) == "class_declaration"@,
        t.child(i, "name"@) == Some(n),
    ensures
        defines_as(
            facts_of(t, file, found, on_self),
            t,
            i,
            t.text(n),
            (if t.child_of_kind(i, "enum_class_body"@) is Some { SymbolKind::Enum } else if word_from(text_between(t.source, t.start(i), t.start(n)), "interface"@, 0) { SymbolKind::Interface } else { SymbolKind::Class }),
            shown(t, i),
        ),
{
    decls_at_kinds();
    let c = context(t, file);
    let prefix = steps(t, file);
    visibility_at_kinds();
    let at = declaration_is_placed(c, prefix, i);
    let inner = is_inner(t, i);
    let x = decls_at(c, at, inner, i)[0];
    assert(decls_at(c, at, inner, i).contains(x));
    starts_with(
        facts_of(t, file, found, on_self).symbols,
        decls_in(c, prefix, false, 1, t.after(0)),
        x,
    );
}

/// An object with a name and a companion object at the top of a Kotlin file or
/// in a type are classes. A companion object without a name has a name of its
/// own.
pub proof fn objects_are_defined(
    t: Syntax,
    file: Seq<char>,
    found: Seq<Seq<CaptureView>>,
    on_self: Seq<Seq<CaptureView>>,
    i: int,
    name: Seq<char>,
)
    requires
        is_placed(t, i),
        t.has(i),
        ((t.kind(i) == "object_declaration"@ || t.kind(i) == "companion_object"@) && (t.child(i, "name"@) matches Some(n) && name == t.text(n)))
            || (t.kind(i) == "companion_object"@ && t.child(i, "name"@) is None && name == "Companion"@),
    ensures
        defines_as(facts_of(t, file, found, on_self), t, i, name, SymbolKind::Class, shown(t, i)),
{
    decls_at_kinds();
    declared_type_kinds();
    let c = context(t, file);
    let prefix = steps(t, file);
    visibility_at_kinds();
    let at = declaration_is_placed(c, prefix, i);
    let inner = is_inner(t, i);
    let x = decls_at(c, at, inner, i)[0];
    assert(decls_at(c, at, inner, i).contains(x));
    starts_with(
        facts_of(t, file, found, on_self).symbols,
        decls_in(c, prefix, false, 1, t.after(0)),
        x,
    );
}

/// A function with a name at the top of a Kotlin file is a function, one in a
/// type a method.
pub proof fn functions_are_defined(
    t: Syntax,
    file: Seq<char>,
    found: Seq<Seq<CaptureView>>,
    on_self: Seq<Seq<CaptureView>>,
    i: int,
    n: int,
)
    requires
        is_placed(t, i),
        t.has(i),
        t.kind(i) == "function_declaration"@,
        t.child(i, "name"@) == Some(n),
    ensures
        defines_as(
            facts_of(t, file, found, on_self),
            t,
            i,
            t.text(n),
            (if t.has_child(0, i) { SymbolKind::Function } else { SymbolKind::Method }),
            shown(t, i),
        ),
{
    decls_at_kinds();
    let c = context(t, file);
    let prefix = steps(t, file);
    visibility_at_kinds();
    let at = declaration_is_placed(c, prefix, i);
    let inner = is_inner(t, i);
    let x = decls_at(c, at, inner, i)[0];
    assert(decls_at(c, at, inner, i).contains(x));
    starts_with(
        facts_of(t, file, found, on_self).symbols,
        decls_in(c, prefix, false, 1, t.after(0)),
        x,
    );
}

/// A function with the name `main` at the top of a Kotlin file is where the
/// program starts.
pub proof fn programs_start_at_main(
    t: Syntax,
    file: Seq<char>,
    found: Seq<Seq<CaptureView>>,
    on_self: Seq<Seq<CaptureView>>,
    i: int,
    n: int,
)
    requires
        t.has_child(0, i),
        t.has(i),
        t.kind(i) == "function_declaration"@,
        t.child(i, "name"@) == Some(n),
        t.text(n) == "main"@,
    ensures
        is_entered(facts_of(t, file, found, on_self), t, i, t.text(n), EntryPointView::Main),
{
    decls_at_kinds();
    let c = context(t, file);
    let prefix = steps(t, file);
    visibility_at_kinds();
    let at = declaration_is_placed(c, prefix, i);
    let inner = is_inner(t, i);
    let x = decls_at(c, at, inner, i)[0];
    assert(x.entry_points[0] == EntryPointView::Main);
    assert(decls_at(c, at, inner, i).contains(x));
    starts_with(
        facts_of(t, file, found, on_self).symbols,
        decls_in(c, prefix, false, 1, t.after(0)),
        x,
    );
}

proof fn first_variables(t: Syntax, lo: int, hi: int, v: int)
    requires
        t.reaches(lo, hi, v),
        t.kind(v) == "variable_declaration"@,
        forall|e: int| #[trigger] t.reaches(lo, hi, e) && e < v
            ==> t.kind(e) != "variable_declaration"@ && t.kind(e) != "multi_variable_declaration"@,
    ensures
        variables_in(t, lo, hi) == Some(v),
    decreases hi - lo,
{
    if lo != v {
        reached_is_behind(t, t.next(lo, hi), hi, v);
        assert(t.reaches(lo, hi, lo));
        assert forall|e: int| #[trigger] t.reaches(t.next(lo, hi), hi, e) && e < v implies t.kind(e) != "variable_declaration"@ && t.kind(e) != "multi_variable_declaration"@ by {
            assert(t.reaches(lo, hi, e));
        }
        first_variables(t, t.next(lo, hi), hi, v);
    }
}

/// A property of one variable at the top of a Kotlin file or in a type is a
/// static variable where it can change, and a constant where it cannot.
pub proof fn properties_are_defined(
    t: Syntax,
    file: Seq<char>,
    found: Seq<Seq<CaptureView>>,
    on_self: Seq<Seq<CaptureView>>,
    i: int,
    v: int,
    n: int,
)
    requires
        is_placed(t, i),
        t.has(i),
        t.kind(i) == "property_declaration"@,
        t.has_child(i, v),
        t.kind(v) == "variable_declaration"@,
        forall|e: int| #[trigger] t.has_child(i, e) && e < v
            ==> t.kind(e) != "variable_declaration"@ && t.kind(e) != "multi_variable_declaration"@,
        t.child_of_kind(v, "identifier"@) == Some(n),
    ensures
        defines_as(
            facts_of(t, file, found, on_self),
            t,
            i,
            t.text(n),
            (if t.child_of_kind(i, "var"@) is Some { SymbolKind::Static } else { SymbolKind::Const }),
            shown(t, i),
        ),
{
    decls_at_kinds();
    let c = context(t, file);
    let prefix = steps(t, file);
    visibility_at_kinds();
    let at = declaration_is_placed(c, prefix, i);
    let inner = is_inner(t, i);
    assert forall|e: int| #[trigger] t.reaches(i + 1, t.after(i), e) && e < v implies t.kind(e) != "variable_declaration"@ && t.kind(e) != "multi_variable_declaration"@ by {
        assert(t.has_child(i, e));
    }
    first_variables(t, i + 1, t.after(i), v);
    let x = decls_at(c, at, inner, i)[0];
    assert(decls_at(c, at, inner, i).contains(x));
    starts_with(
        facts_of(t, file, found, on_self).symbols,
        decls_in(c, prefix, false, 1, t.after(0)),
        x,
    );
}

/// A type alias at the top of a Kotlin file or in a type is defined.
pub proof fn aliases_are_defined(
    t: Syntax,
    file: Seq<char>,
    found: Seq<Seq<CaptureView>>,
    on_self: Seq<Seq<CaptureView>>,
    i: int,
    n: int,
)
    requires
        is_placed(t, i),
        t.has(i),
        t.kind(i) == "type_alias"@,
        t.child(i, "type"@) == Some(n),
    ensures
        defines_as(
            facts_of(t, file, found, on_self),
            t,
            i,
            t.text(n),
            SymbolKind::TypeAlias,
            shown(t, i),
        ),
{
    decls_at_kinds();
    let c = context(t, file);
    let prefix = steps(t, file);
    visibility_at_kinds();
    let at = declaration_is_placed(c, prefix, i);
    let inner = is_inner(t, i);
    let x = decls_at(c, at, inner, i)[0];
    assert(decls_at(c, at, inner, i).contains(x));
    starts_with(
        facts_of(t, file, found, on_self).symbols,
        decls_in(c, prefix, false, 1, t.after(0)),
        x,
    );
}

/// An entry of an enum is a constant.
pub proof fn enum_entries_are_defined(
    t: Syntax,
    file: Seq<char>,
    found: Seq<Seq<CaptureView>>,
    on_self: Seq<Seq<CaptureView>>,
    i: int,
    n: int,
)
    requires
        is_placed(t, i),
        t.has(i),
        t.kind(i) == "enum_entry"@,
        t.child_of_kind(i, "identifier"@) == Some(n),
    ensures
        defines_as(
            facts_of(t, file, found, on_self),
            t,
            i,
            t.text(n),
            SymbolKind::Const,
            shown(t, i),
        ),
{
    decls_at_kinds();
    let c = context(t, file);
    let prefix = steps(t, file);
    visibility_at_kinds();
    let at = declaration_is_placed(c, prefix, i);
    let inner = is_inner(t, i);
    let x = decls_at(c, at, inner, i)[0];
    assert(decls_at(c, at, inner, i).contains(x));
    starts_with(
        facts_of(t, file, found, on_self).symbols,
        decls_in(c, prefix, false, 1, t.after(0)),
        x,
    );
}

/// A constructor in a type is a method.
pub proof fn constructors_are_defined(
    t: Syntax,
    file: Seq<char>,
    found: Seq<Seq<CaptureView>>,
    on_self: Seq<Seq<CaptureView>>,
    i: int,
)
    requires
        is_placed(t, i),
        t.has(i),
        t.kind(i) == "secondary_constructor"@,
    ensures
        defines_as(
            facts_of(t, file, found, on_self),
            t,
            i,
            "constructor"@,
            SymbolKind::Method,
            shown(t, i),
        ),
{
    decls_at_kinds();
    let c = context(t, file);
    let prefix = steps(t, file);
    visibility_at_kinds();
    let at = declaration_is_placed(c, prefix, i);
    let inner = is_inner(t, i);
    let x = decls_at(c, at, inner, i)[0];
    assert(decls_at(c, at, inner, i).contains(x));
    starts_with(
        facts_of(t, file, found, on_self).symbols,
        decls_in(c, prefix, false, 1, t.after(0)),
        x,
    );
}

/// The name of what a node in a type declares, and its kind.
pub open spec fn declares_as(t: Syntax, i: int, name: Seq<char>, kind: SymbolKind) -> bool {
    ||| t.kind(i) == "function_declaration"@ && kind == SymbolKind::Method
        && (t.child(i, "name"@) matches Some(n) && name == t.text(n))
    ||| t.kind(i) == "object_declaration"@ && kind == SymbolKind::Class
        && (t.child(i, "name"@) matches Some(n) && name == t.text(n))
    ||| t.kind(i) == "type_alias"@ && kind == SymbolKind::TypeAlias
        && (t.child(i, "type"@) matches Some(n) && name == t.text(n))
    ||| t.kind(i) == "enum_entry"@ && kind == SymbolKind::Const
        && (t.child_of_kind(i, "identifier"@) matches Some(n) && name == t.text(n))
    ||| t.kind(i) == "secondary_constructor"@ && kind == SymbolKind::Method
        && name == "constructor"@
}

/// What is declared in the body of a type stands in the type: methods,
/// constructors, objects, aliases and entries.
pub proof fn members_stand_in_types(
    t: Syntax,
    file: Seq<char>,
    found: Seq<Seq<CaptureView>>,
    on_self: Seq<Seq<CaptureView>>,
    owner: int,
    body: int,
    i: int,
    name: Seq<char>,
    kind: SymbolKind,
)
    requires
        is_placed(t, owner),
        t.has(owner),
        is_type(t, owner),
        t.has_child(owner, body),
        is_body(t, body),
        t.has_child(body, i),
        declares_as(t, i, name, kind),
    ensures
        defines(facts_of(t, file, found, on_self), t, i, name, kind),
        defines_in(facts_of(t, file, found, on_self), t, owner, i, name, kind),
{
    decls_at_kinds();
    declared_type_kinds();
    let c = context(t, file);
    let prefix = steps(t, file);
    let own = declaration_is_placed(c, prefix, owner);
    let inner = is_inner(t, owner);
    let outer = decls_at(c, own, inner, owner)[0];
    let declared = declared_type(t, owner)->0;
    let at = own + seq![DescriptorView::Type(declared.1)];
    assert(outer.id =~= at);
    assert(decls_at(c, own, inner, owner).contains(outer));
    reached_is_behind(t, owner + 1, t.after(owner), body);
    reached_is_behind(t, body + 1, t.after(body), i);
    let x = decls_at(c, at, true, i)[0];
    assert(decls_at(c, at, true, i).contains(x));
    decls_in_has(c, at, true, body + 1, t.after(body), i, x);
    bodies_in_has(c, at, owner + 1, t.after(owner), body, x);
    let first = seq![outer];
    let rest = bodies_in(c, at, owner + 1, t.after(owner));
    assert(decls_at(c, own, inner, owner) =~= first + rest);
    in_either(first, rest, x);
    assert(decls_at(c, own, inner, owner).contains(x));
    starts_with(
        facts_of(t, file, found, on_self).symbols,
        decls_in(c, prefix, false, 1, t.after(0)),
        x,
    );
    starts_with(
        facts_of(t, file, found, on_self).symbols,
        decls_in(c, prefix, false, 1, t.after(0)),
        outer,
    );
    assert(x.id =~= outer.id.push(x.id.last()));
}

proof fn first_user_type(t: Syntax, i: int, ty: int)
    requires
        t.nested(),
        t.has(i),
        i <= ty < t.after(i),
        t.kind(ty) == "user_type"@,
        forall|k: int| i <= k < ty ==> #[trigger] t.kind(k) != "user_type"@,
    ensures
        user_type_at(t, i) == Some(ty),
    decreases t.left(i), 0nat,
{
    if i != ty {
        first_user_type_in(t, i + 1, t.after(i), ty);
    }
}

proof fn first_user_type_in(t: Syntax, lo: int, hi: int, ty: int)
    requires
        t.nested(),
        t.closed_range(lo, hi),
        lo <= ty < hi,
        t.kind(ty) == "user_type"@,
        forall|k: int| lo <= k < ty ==> #[trigger] t.kind(k) != "user_type"@,
    ensures
        user_type_in(t, lo, hi) == Some(ty),
    decreases t.left(lo), 1nat,
{
    if ty < t.after(lo) {
        first_user_type(t, lo, ty);
    } else {
        no_user_type(t, lo, t.after(lo));
        first_user_type_in(t, t.next(lo, hi), hi, ty);
    }
}

proof fn no_user_type(t: Syntax, i: int, end: int)
    requires
        t.nested(),
        t.has(i),
        end == t.after(i),
        forall|k: int| i <= k < end ==> #[trigger] t.kind(k) != "user_type"@,
    ensures
        user_type_at(t, i) is None,
    decreases t.left(i), 0nat,
{
    no_user_type_in(t, i + 1, end);
}

proof fn no_user_type_in(t: Syntax, lo: int, hi: int)
    requires
        t.nested(),
        t.closed_range(lo, hi),
        forall|k: int| lo <= k < hi ==> #[trigger] t.kind(k) != "user_type"@,
    ensures
        user_type_in(t, lo, hi) is None,
    decreases t.left(lo), 1nat,
{
    if lo < hi {
        no_user_type(t, lo, t.after(lo));
        no_user_type_in(t, t.next(lo, hi), hi);
    }
}

/// A class or an object implements the first type in each of its delegation
/// specifiers.
pub proof fn bases_are_implemented(
    t: Syntax,
    file: Seq<char>,
    found: Seq<Seq<CaptureView>>,
    on_self: Seq<Seq<CaptureView>>,
    i: int,
    list: int,
    s: int,
    ty: int,
)
    requires
        t.nested(),
        0 <= i < t.after(0),
        t.kind(i) == "class_declaration"@ || t.kind(i) == "object_declaration"@,
        t.has_child(i, list),
        t.kind(list) == "delegation_specifiers"@,
        t.has_child(list, s),
        t.kind(s) == "delegation_specifier"@,
        s <= ty < t.after(s),
        t.kind(ty) == "user_type"@,
        forall|k: int| s <= k < ty ==> #[trigger] t.kind(k) != "user_type"@,
    ensures
        refers(
            facts_of(t, file, found, on_self),
            t,
            ty,
            simple_name(t.text(ty), "."@),
            RefRole::IsImplementation,
        ),
{
    let b = reference_at(t, file, ty, simple_name(t.text(ty), "."@), RefRole::IsImplementation);
    reached_is_behind(t, i + 1, t.after(i), list);
    reached_is_behind(t, list + 1, t.after(list), s);
    first_user_type(t, s, ty);
    assert(base_of(t, file, s)[0] == b);
    bases_in_has(t, file, list + 1, t.after(list), s, b);
    base_lists_in_has(t, file, i + 1, t.after(i), list, b);
    let x = reference_at(t, file, ty, simple_name(t.text(ty), "."@), RefRole::IsImplementation);
    inherits_reported(t, file, found, on_self, i, x);
}

/// An assignment, whatever its operator, writes the identifier on its left.
pub proof fn assignments_write(
    t: Syntax,
    file: Seq<char>,
    found: Seq<Seq<CaptureView>>,
    on_self: Seq<Seq<CaptureView>>,
    i: int,
    left: int,
)
    requires
        t.nested(),
        0 <= i < t.after(0),
        t.kind(i) == "assignment"@,
        t.child(i, "left"@) == Some(left),
        t.kind(left) == "identifier"@,
        long_enough(t.text(left)),
    ensures
        refers(facts_of(t, file, found, on_self), t, left, t.text(left), RefRole::Write),
{
    let x = reference_at(t, file, left, t.text(left), RefRole::Write);
    assert(write_of(t, file, i)[0] == x);
    writes_reported(t, file, found, on_self, i, x);
}

proof fn last_is_last(t: Syntax, lo: int, hi: int, found: Option<int>, i: int)
    requires
        last_identifier_in(t, lo, hi, found) == Some(i),
    ensures
        t.reaches(lo, hi, i) || found == Some(i),
        forall|e: int| #[trigger] t.reaches(lo, hi, e) && t.named(e) && t.kind(e) == "identifier"@
            ==> e <= i,
    decreases hi - lo,
{
    if lo < hi {
        let next = t.next(lo, hi);
        let now = if t.named(lo) && t.kind(lo) == "identifier"@ { Some(lo) } else { found };
        last_is_last(t, next, hi, now, i);
        assert forall|e: int| #[trigger] t.reaches(lo, hi, e) && t.named(e) && t.kind(e) == "identifier"@ implies e <= i by {
            if e == lo {
                if t.reaches(next, hi, i) {
                    reached_is_behind(t, next, hi, i);
                }
            } else {
                assert(t.reaches(next, hi, e));
            }
        }
    }
}

/// An identifier is read unless it is called, assigned to, the name of what its
/// parent declares, or a part of a name; of a chain of names, the one at its
/// end is not.
pub proof fn values_are_read(
    t: Syntax,
    file: Seq<char>,
    found: Seq<Seq<CaptureView>>,
    on_self: Seq<Seq<CaptureView>>,
    i: int,
    p: int,
    e: int,
)
    requires
        t.nested(),
        0 <= i < t.after(0),
        t.kind(i) == "identifier"@,
        long_enough(t.text(i)),
        t.parent(i) == Some(p),
        t.has(p),
        t.kind(p) == "call_expression"@ ==> t.named_child(p) != Some(i),
        t.kind(p) == "navigation_expression"@
            ==> t.has_child(p, e) && t.named(e) && t.kind(e) == "identifier"@ && i < e,
        !t.in_field(i, "name"@),
        !(t.in_field(i, "type"@) && t.kind(p) == "type_alias"@),
        !(t.in_field(i, "left"@) && t.kind(p) == "assignment"@),
        t.kind(p) == "variable_declaration"@ || t.kind(p) == "parameter"@
            || t.kind(p) == "class_parameter"@
            ==> t.named_child_of_kind(p, "identifier"@) != Some(i),
        t.kind(p) != "import"@,
        t.kind(p) != "qualified_identifier"@,
        t.kind(p) != "package_header"@,
        t.kind(p) != "user_type"@,
        t.kind(p) != "type_identifier"@,
        forall|j: int, k: int| t.has(j) && t.kind(j) == "identifier"@
            && j < k < #[trigger] t.after(j)
            ==> #[trigger] t.kind(k) != "identifier"@,
    ensures
        refers(facts_of(t, file, found, on_self), t, i, t.text(i), RefRole::Read),
{
    child_stands_in_field(t, p, "name"@);
    child_stands_in_field(t, p, "type"@);
    child_stands_in_field(t, p, "left"@);
    if t.kind(p) == "navigation_expression"@
        && last_identifier_in(t, p + 1, t.after(p), None) == Some(i) {
        last_is_last(t, p + 1, t.after(p), None, i);
        assert(t.reaches(p + 1, t.after(p), e));
    }
    let x = reference_at(t, file, i, t.text(i), RefRole::Read);
    assert(read_of(t, file, i)[0] == x);
    reads_reported(t, file, found, on_self, i, x);
}

/// Each parameter of a function, an anonymous function or a constructor is
/// bound in the innermost scope at its place. It has the type that it is
/// declared with.
pub proof fn parameters_are_bound(
    t: Syntax,
    file: Seq<char>,
    found: Seq<Seq<CaptureView>>,
    on_self: Seq<Seq<CaptureView>>,
    i: int,
    list: int,
    p: int,
    n: int,
)
    requires
        t.nested(),
        0 <= i < t.after(0),
        t.kind(i) == "function_declaration"@ || t.kind(i) == "anonymous_function"@
            || t.kind(i) == "secondary_constructor"@,
        t.has_child(i, list),
        t.kind(list) == "function_value_parameters"@,
        t.has_child(list, p),
        t.named(p),
        t.kind(p) == "parameter"@,
        t.child_of_kind(p, "identifier"@) == Some(n),
        facts_of(t, file, found, on_self).scopes.len() <= usize::MAX,
    ensures
        binds(facts_of(t, file, found, on_self), t.text(n), t.start(n), BindingKind::Param),
        t.named_child_of_kind(p, "user_type"@) matches Some(ty)
            ==> binds_as(
                facts_of(t, file, found, on_self),
                t.text(n),
                t.start(n),
                BindingKind::Param,
                simple_name(t.text(ty), "."@),
            ),
{
    introduced_kinds();
    let b = local_binding(
        facts_of(t, file, found, on_self).scopes,
        t.text(n),
        t.start(n),
        BindingKind::Param,
        written_type(t, p),
    );
    reached_is_behind(t, i + 1, t.after(i), list);
    assert(param_at(t, facts_of(t, file, found, on_self).scopes, p)[0] == b);
    params_in_has(t, facts_of(t, file, found, on_self).scopes, list + 1, t.after(list), p, b);
    param_lists_in_has(t, facts_of(t, file, found, on_self).scopes, i + 1, t.after(i), list, b);
    let scopes = facts_of(t, file, found, on_self).scopes;
    let x = local_binding(scopes, t.text(n), t.start(n), BindingKind::Param, written_type(t, p));
    bindings_reported(t, file, found, on_self, i, x);
    local_is_bound(
        facts_of(t, file, found, on_self),
        t.text(n),
        t.start(n),
        BindingKind::Param,
        written_type(t, p),
    );
}

/// Each parameter of a lambda literal is bound in the innermost scope at its
/// place.
pub proof fn lambda_parameters_are_bound(
    t: Syntax,
    file: Seq<char>,
    found: Seq<Seq<CaptureView>>,
    on_self: Seq<Seq<CaptureView>>,
    i: int,
    list: int,
    p: int,
    n: int,
)
    requires
        t.nested(),
        0 <= i < t.after(0),
        t.kind(i) == "lambda_literal"@,
        t.has_child(i, list),
        t.kind(list) == "lambda_parameters"@,
        t.has_child(list, p),
        t.kind(p) == "variable_declaration"@,
        t.child_of_kind(p, "identifier"@) == Some(n),
        facts_of(t, file, found, on_self).scopes.len() <= usize::MAX,
    ensures
        binds(facts_of(t, file, found, on_self), t.text(n), t.start(n), BindingKind::Param),
{
    introduced_kinds();
    let b = local_binding(
        facts_of(t, file, found, on_self).scopes,
        t.text(n),
        t.start(n),
        BindingKind::Param,
        None,
    );
    reached_is_behind(t, i + 1, t.after(i), list);
    assert(seq![b][0] == b);
    lambda_names_in_has(t, facts_of(t, file, found, on_self).scopes, list + 1, t.after(list), p, b);
    lambda_params_in_has(t, facts_of(t, file, found, on_self).scopes, i + 1, t.after(i), list, b);
    let scopes = facts_of(t, file, found, on_self).scopes;
    let x = local_binding(scopes, t.text(n), t.start(n), BindingKind::Param, None);
    bindings_reported(t, file, found, on_self, i, x);
    local_is_bound(
        facts_of(t, file, found, on_self),
        t.text(n),
        t.start(n),
        BindingKind::Param,
        None,
    );
}

/// Whether the innermost scope at a byte is that of a function or a block.
pub open spec fn in_function(scopes: Seq<Scope>, byte: int) -> bool {
    exists|id: ScopeId| #[trigger] is_innermost(scopes, byte, id) && id < scopes.len()
        && (scopes[id as int].kind == ScopeKind::Function || scopes[id as int].kind == ScopeKind::Block)
}

proof fn function_is_code(scopes: Seq<Scope>, byte: int)
    requires
        scopes.len() <= usize::MAX,
        in_function(scopes, byte),
    ensures
        in_code(scopes, byte),
{
    home_is_innermost(scopes, byte);
    let id = choose|id: ScopeId| #[trigger] is_innermost(scopes, byte, id) && id < scopes.len()
        && (scopes[id as int].kind == ScopeKind::Function || scopes[id as int].kind == ScopeKind::Block);
    let home = home_scope(scopes, byte);
    assert(id == home) by {
        if id < home {
            assert(home < scopes.len());
            assert(scopes[home as int].span.start <= byte < scopes[home as int].span.end);
        } else if home < id {
            assert(scopes[id as int].span.start <= byte < scopes[id as int].span.end);
        }
    }
}

/// The variable of a property or of a loop inside a function is bound in the
/// innermost scope at its place. It has the type that it is declared with.
pub proof fn locals_are_bound(
    t: Syntax,
    file: Seq<char>,
    found: Seq<Seq<CaptureView>>,
    on_self: Seq<Seq<CaptureView>>,
    i: int,
    v: int,
    n: int,
)
    requires
        t.nested(),
        0 <= i < t.after(0),
        t.kind(i) == "property_declaration"@ || t.kind(i) == "for_statement"@,
        t.child_of_kind(i, "variable_declaration"@) == Some(v),
        t.child_of_kind(v, "identifier"@) == Some(n),
        in_function(facts_of(t, file, found, on_self).scopes, t.start(n)),
        facts_of(t, file, found, on_self).scopes.len() <= usize::MAX,
    ensures
        binds(facts_of(t, file, found, on_self), t.text(n), t.start(n), BindingKind::Local),
        t.kind(i) == "property_declaration"@ && (t.named_child_of_kind(v, "user_type"@) is Some)
            ==> binds_as(
                facts_of(t, file, found, on_self),
                t.text(n),
                t.start(n),
                BindingKind::Local,
                simple_name(t.text(t.named_child_of_kind(v, "user_type"@)->0), "."@),
            ),
{
    introduced_kinds();
    function_is_code(facts_of(t, file, found, on_self).scopes, t.start(n));
    let scopes = facts_of(t, file, found, on_self).scopes;
    let x = local_binding(
        scopes,
        t.text(n),
        t.start(n),
        BindingKind::Local,
        if t.kind(i) == "property_declaration"@ { property_type(t, i, v) } else { None },
    );
    assert(introduced(t, scopes, i)[0] == x);
    bindings_reported(t, file, found, on_self, i, x);
    local_is_bound(
        facts_of(t, file, found, on_self),
        t.text(n),
        t.start(n),
        BindingKind::Local,
        if t.kind(i) == "property_declaration"@ { property_type(t, i, v) } else { None },
    );
}

proof fn first_behind(t: Syntax, lo: int, hi: int, v: int, past: bool, value: int)
    requires
        t.reaches(lo, hi, value),
        t.named(value),
        past || (t.reaches(lo, hi, v) && t.named(v) && v < value),
        forall|e: int| #[trigger] t.reaches(lo, hi, e) && t.named(e) && (past || v < e)
            ==> value <= e,
    ensures
        named_behind(t, lo, hi, v, past) == Some(value),
    decreases hi - lo,
{
    assert(t.reaches(lo, hi, lo));
    reached_is_behind(t, lo, hi, value);
    if !(t.named(lo) && past) {
        let next = t.next(lo, hi);
        let now = past || (t.named(lo) && lo == v);
        if !past {
            reached_is_behind(t, lo, hi, v);
        }
        assert(lo != value);
        assert(t.reaches(next, hi, value));
        if !now {
            assert(t.reaches(next, hi, v));
        }
        assert forall|e: int| #[trigger] t.reaches(next, hi, e) && t.named(e) && (now || v < e) implies value <= e by {
            reached_is_behind(t, next, hi, e);
            assert(t.reaches(lo, hi, e));
        }
        first_behind(t, next, hi, v, now, value);
    }
}

/// Whether node `value` is the first named child of node `i` behind its child `v`.
pub open spec fn follows(t: Syntax, i: int, v: int, value: int) -> bool {
    &&& t.has_child(i, v)
    &&& t.has_child(i, value)
    &&& t.named(v)
    &&& t.named(value)
    &&& v < value
    &&& forall|e: int| #[trigger] t.has_child(i, e) && t.named(e) && v < e ==> value <= e
}

/// A property inside a function without a written type whose value is the call
/// of a plain name has that name for a type.
pub proof fn constructed_locals_are_bound(
    t: Syntax,
    file: Seq<char>,
    found: Seq<Seq<CaptureView>>,
    on_self: Seq<Seq<CaptureView>>,
    i: int,
    v: int,
    n: int,
    value: int,
    callee: int,
)
    requires
        t.nested(),
        0 <= i < t.after(0),
        t.kind(i) == "property_declaration"@,
        t.child_of_kind(i, "variable_declaration"@) == Some(v),
        t.child_of_kind(v, "identifier"@) == Some(n),
        t.named_child_of_kind(v, "user_type"@) is None,
        t.child_of_kind(v, ":"@) is None,
        follows(t, i, v, value),
        t.kind(value) == "call_expression"@,
        t.named_child(value) == Some(callee),
        t.kind(callee) == "identifier"@,
        in_function(facts_of(t, file, found, on_self).scopes, t.start(n)),
        facts_of(t, file, found, on_self).scopes.len() <= usize::MAX,
    ensures
        binds(facts_of(t, file, found, on_self), t.text(n), t.start(n), BindingKind::Local),
        binds_as(
            facts_of(t, file, found, on_self),
            t.text(n),
            t.start(n),
            BindingKind::Local,
            simple_name(t.text(callee), "."@),
        ),
{
    introduced_kinds();
    function_is_code(facts_of(t, file, found, on_self).scopes, t.start(n));
    assert forall|e: int| #[trigger] t.reaches(i + 1, t.after(i), e) && t.named(e) && v < e implies value <= e by {
        assert(t.has_child(i, e));
    }
    first_behind(t, i + 1, t.after(i), v, false, value);
    assert(property_type(t, i, v) == Some(simple_name(t.text(callee), "."@)));
    let scopes = facts_of(t, file, found, on_self).scopes;
    let x = local_binding(
        scopes,
        t.text(n),
        t.start(n),
        BindingKind::Local,
        Some(simple_name(t.text(callee), "."@)),
    );
    assert(introduced(t, scopes, i)[0] == x);
    bindings_reported(t, file, found, on_self, i, x);
    local_is_bound(
        facts_of(t, file, found, on_self),
        t.text(n),
        t.start(n),
        BindingKind::Local,
        Some(simple_name(t.text(callee), "."@)),
    );
}

proof fn first_name(t: Syntax, lo: int, hi: int, n: int)
    requires
        t.reaches(lo, hi, n),
        t.kind(n) == "qualified_identifier"@ || t.kind(n) == "identifier"@,
        forall|e: int| #[trigger] t.reaches(lo, hi, e) && e < n
            ==> t.kind(e) != "qualified_identifier"@ && t.kind(e) != "identifier"@,
    ensures
        name_in(t, lo, hi) == Some(n),
    decreases hi - lo,
{
    if lo != n {
        reached_is_behind(t, t.next(lo, hi), hi, n);
        assert(t.reaches(lo, hi, lo));
        assert forall|e: int| #[trigger] t.reaches(t.next(lo, hi), hi, e) && e < n implies t.kind(e) != "qualified_identifier"@ && t.kind(e) != "identifier"@ by {
            assert(t.reaches(lo, hi, e));
        }
        first_name(t, t.next(lo, hi), hi, n);
    }
}

/// An import without an asterisk is reported under the last piece of the first
/// name in it, from the pieces before.
pub proof fn imports_are_reported(
    t: Syntax,
    file: Seq<char>,
    found: Seq<Seq<CaptureView>>,
    on_self: Seq<Seq<CaptureView>>,
    i: int,
    n: int,
)
    requires
        t.nested(),
        0 <= i < t.after(0),
        t.kind(i) == "import"@,
        !t.text(i).contains('*'),
        t.has_child(i, n),
        t.kind(n) == "qualified_identifier"@ || t.kind(n) == "identifier"@,
        forall|e: int| #[trigger] t.has_child(i, e) && e < n
            ==> t.kind(e) != "qualified_identifier"@ && t.kind(e) != "identifier"@,
        forall|j: int, k: int| t.has(j) && t.kind(j) == "import"@ && j < k < #[trigger] t.after(j)
            ==> #[trigger] t.kind(k) != "import"@,
    ensures
        imports(
            facts_of(t, file, found, on_self),
            t,
            n,
            after_last(t.text(n), '.'),
            if t.text(n).contains('.')
                && before_last(t.text(n), '.').len() > 0 { Some(before_last(t.text(n), '.')) } else { None },
        ),
{
    assert forall|e: int| #[trigger] t.reaches(i + 1, t.after(i), e) && e < n implies t.kind(e) != "qualified_identifier"@ && t.kind(e) != "identifier"@ by {
        assert(t.has_child(i, e));
    }
    first_name(t, i + 1, t.after(i), n);
    last_index_tells(t.text(n), '.');
    let x = import_of(t, file, own_module(t, file), i)[0];
    assert(import_of(t, file, own_module(t, file), i)[0] == x);
    imports_reported(t, file, found, on_self, i, x);
}

/// Whether a node is a type.
pub open spec fn is_shape(t: Syntax, i: int) -> bool {
    ||| t.kind(i) == "user_type"@
    ||| t.kind(i) == "nullable_type"@
    ||| t.kind(i) == "function_type"@
    ||| t.kind(i) == "parenthesized_type"@
    ||| t.kind(i) == "non_nullable_type"@
}

/// Whether the way to node `j` is open: it stands below no type, no variable and
/// no node without a name.
pub open spec fn is_open(t: Syntax, j: int) -> bool {
    t.named(j) && forall|k: int| 0 <= k < j && j < #[trigger] t.after(k)
        ==> !is_shape(t, k) && t.kind(k) != "variable_declaration"@ && t.named(k)
}

proof fn type_refs_reach(t: Syntax, file: Seq<char>, i: int, j: int, x: ReferenceView)
    requires
        t.nested(),
        t.has(i),
        i <= j < t.after(i),
        is_open(t, j),
        !is_shape(t, j),
        t.kind(j) != "function_value_parameters"@,
        type_refs_at(t, file, j).contains(x),
    ensures
        type_refs_at(t, file, i).contains(x),
    decreases t.left(i), 0nat,
{
    if i != j {
        assert(j < t.after(i) && t.kind(i) != "variable_declaration"@);
        let kind = t.kind(i);
        if kind == "parameter"@ || kind == "class_parameter"@ {
            untyped_parts_reach(t, file, i + 1, t.after(i), j, x);
            in_either(
                typed_refs(t, file, TypeRefContext::ParameterType, i),
                untyped_parts_in(t, file, i + 1, t.after(i)),
                x,
            );
        } else if kind == "function_declaration"@ {
            function_parts_reach(t, file, i + 1, t.after(i), false, j, x);
        } else {
            type_refs_reach_in(t, file, i + 1, t.after(i), j, x);
        }
    }
}

proof fn type_refs_reach_in(t: Syntax, file: Seq<char>, lo: int, hi: int, j: int, x: ReferenceView)
    requires
        t.nested(),
        t.closed_range(lo, hi),
        lo <= j < hi,
        is_open(t, j),
        !is_shape(t, j),
        t.kind(j) != "function_value_parameters"@,
        type_refs_at(t, file, j).contains(x),
    ensures
        type_refs_in(t, file, lo, hi).contains(x),
    decreases t.left(lo), 1nat,
{
    if j < t.after(lo) {
        type_refs_reach(t, file, lo, j, x);
    } else {
        type_refs_reach_in(t, file, t.next(lo, hi), hi, j, x);
    }
    in_either(type_refs_at(t, file, lo), type_refs_in(t, file, t.next(lo, hi), hi), x);
}

proof fn named_type_refs_reach(
    t: Syntax,
    file: Seq<char>,
    lo: int,
    hi: int,
    j: int,
    x: ReferenceView,
)
    requires
        t.nested(),
        t.closed_range(lo, hi),
        lo <= j < hi,
        is_open(t, j),
        !is_shape(t, j),
        t.kind(j) != "function_value_parameters"@,
        type_refs_at(t, file, j).contains(x),
    ensures
        named_type_refs_in(t, file, lo, hi).contains(x),
    decreases t.left(lo), 1nat,
{
    if j < t.after(lo) {
        assert(t.named(lo));
        type_refs_reach(t, file, lo, j, x);
    } else {
        named_type_refs_reach(t, file, t.next(lo, hi), hi, j, x);
    }
    let own = if t.named(lo) { type_refs_at(t, file, lo) } else { Seq::empty() };
    in_either(own, named_type_refs_in(t, file, t.next(lo, hi), hi), x);
}

proof fn untyped_parts_reach(t: Syntax, file: Seq<char>, lo: int, hi: int, j: int, x: ReferenceView)
    requires
        t.nested(),
        t.closed_range(lo, hi),
        lo <= j < hi,
        is_open(t, j),
        !is_shape(t, j),
        t.kind(j) != "function_value_parameters"@,
        type_refs_at(t, file, j).contains(x),
    ensures
        untyped_parts_in(t, file, lo, hi).contains(x),
    decreases t.left(lo), 1nat,
{
    if j < t.after(lo) {
        assert(!is_shape(t, lo));
        type_refs_reach(t, file, lo, j, x);
    } else {
        untyped_parts_reach(t, file, t.next(lo, hi), hi, j, x);
    }
    let own = if !is_type_shape(t, lo) { type_refs_at(t, file, lo) } else { Seq::empty() };
    in_either(own, untyped_parts_in(t, file, t.next(lo, hi), hi), x);
}

proof fn function_parts_reach(
    t: Syntax,
    file: Seq<char>,
    lo: int,
    hi: int,
    past: bool,
    j: int,
    x: ReferenceView,
)
    requires
        t.nested(),
        t.closed_range(lo, hi),
        lo <= j < hi,
        is_open(t, j),
        !is_shape(t, j),
        t.kind(j) != "function_value_parameters"@,
        type_refs_at(t, file, j).contains(x),
    ensures
        function_parts_in(t, file, lo, hi, past).contains(x),
    decreases t.left(lo), 2nat,
{
    is_type_shape_kinds();
    let next = t.next(lo, hi);
    if j < t.after(lo) {
        assert(t.named(lo) && !is_shape(t, lo));
        if t.kind(lo) == "function_value_parameters"@ {
            named_type_refs_reach(t, file, lo + 1, t.after(lo), j, x);
            in_either(
                named_type_refs_in(t, file, lo + 1, t.after(lo)),
                function_parts_in(t, file, next, hi, true),
                x,
            );
        } else {
            type_refs_reach(t, file, lo, j, x);
            in_either(type_refs_at(t, file, lo), function_parts_in(t, file, next, hi, past), x);
        }
    } else {
        let behind = past || (t.named(lo) && t.kind(lo) == "function_value_parameters"@);
        function_parts_reach(t, file, next, hi, behind, j, x);
        if t.named(lo) {
            if t.kind(lo) == "function_value_parameters"@ {
                in_either(
                    named_type_refs_in(t, file, lo + 1, t.after(lo)),
                    function_parts_in(t, file, next, hi, true),
                    x,
                );
            } else if is_type_shape(t, lo) {
                let own = if past { leaves_at(t, file, TypeRefContext::ReturnType, lo) } else { Seq::empty() };
                in_either(own, function_parts_in(t, file, next, hi, past), x);
            } else {
                in_either(type_refs_at(t, file, lo), function_parts_in(t, file, next, hi, past), x);
            }
        }
    }
}

/// Whether the type `i` at a position leads to the type name `n` at the position
/// `at`: it is that name or has it as a part, or a part of it leads there. What
/// stands between brackets is an argument.
pub open spec fn leads_to(
    t: Syntax,
    i: int,
    position: TypeRefContext,
    n: int,
    at: TypeRefContext,
) -> bool
    decreases n - i,
{
    if i >= n {
        i == n && t.kind(i) == "type_identifier"@ && position == at
    } else if t.kind(i) == "user_type"@ {
        ||| t.has_child(i, n) && t.named(n)
            && (t.kind(n) == "type_identifier"@ || t.kind(n) == "identifier"@) && position == at
        ||| exists|c: int| #[trigger] t.has_child(i, c) && t.named(c)
            && t.kind(c) == "type_arguments"@ && i < c <= n
            && leads_to(t, c, TypeRefContext::GenericArg, n, at)
        ||| exists|s: int| #[trigger] t.has_child(i, s) && t.named(s)
            && t.kind(s) == "simple_user_type"@ && t.has_child(s, n) && t.named(n)
            && t.kind(n) == "type_identifier"@ && position == at
    } else if t.kind(i) == "type_arguments"@ {
        exists|c: int| #[trigger] t.has_child(i, c) && t.named(c) && i < c <= n
            && leads_to(t, c, TypeRefContext::GenericArg, n, at)
    } else if t.kind(i) == "type_identifier"@ {
        false
    } else {
        exists|c: int| #[trigger] t.has_child(i, c) && t.named(c) && i < c <= n
            && leads_to(t, c, position, n, at)
    }
}

proof fn leaves_are_found(
    t: Syntax,
    file: Seq<char>,
    i: int,
    position: TypeRefContext,
    n: int,
    at: TypeRefContext,
)
    requires
        t.has(i),
        leads_to(t, i, position, n, at),
    ensures
        leaves_at(t, file, position, i).contains(type_reference_at(t, file, n, t.text(n), at)),
    decreases n - i,
{
    leaves_at_kinds();
    user_parts_in_kinds();
    simple_parts_in_kinds();
    let x = type_reference_at(t, file, n, t.text(n), at);
    if i >= n {
        assert(leaves_at(t, file, position, i)[0] == x);
    } else if t.kind(i) == "user_type"@ {
        if t.has_child(i, n) && t.named(n)
            && (t.kind(n) == "type_identifier"@ || t.kind(n) == "identifier"@) && position == at {
            assert(seq![x][0] == x);
            user_parts_in_has(t, file, position, i + 1, t.after(i), n, x);
        } else if exists|c: int| #[trigger] t.has_child(i, c) && t.named(c)
            && t.kind(c) == "type_arguments"@ && i < c <= n
            && leads_to(t, c, TypeRefContext::GenericArg, n, at) {
            let c = choose|c: int| #[trigger] t.has_child(i, c) && t.named(c)
                && t.kind(c) == "type_arguments"@ && i < c <= n
                && leads_to(t, c, TypeRefContext::GenericArg, n, at);
            reached_is_behind(t, i + 1, t.after(i), c);
            leaves_are_found(t, file, c, TypeRefContext::GenericArg, n, at);
            user_parts_in_has(t, file, position, i + 1, t.after(i), c, x);
        } else {
            let s = choose|s: int| #[trigger] t.has_child(i, s) && t.named(s)
                && t.kind(s) == "simple_user_type"@ && t.has_child(s, n) && t.named(n)
                && t.kind(n) == "type_identifier"@ && position == at;
            reached_is_behind(t, i + 1, t.after(i), s);
            assert(seq![x][0] == x);
            simple_parts_in_has(t, file, position, s + 1, t.after(s), n, x);
            user_parts_in_has(t, file, position, i + 1, t.after(i), s, x);
        }
    } else if t.kind(i) == "type_arguments"@ {
        let c = choose|c: int| #[trigger] t.has_child(i, c) && t.named(c) && i < c <= n
            && leads_to(t, c, TypeRefContext::GenericArg, n, at);
        reached_is_behind(t, i + 1, t.after(i), c);
        leaves_are_found(t, file, c, TypeRefContext::GenericArg, n, at);
        leaves_in_has(t, file, TypeRefContext::GenericArg, i + 1, t.after(i), c, x);
    } else {
        let c = choose|c: int| #[trigger] t.has_child(i, c) && t.named(c) && i < c <= n
            && leads_to(t, c, position, n, at);
        reached_is_behind(t, i + 1, t.after(i), c);
        leaves_are_found(t, file, c, position, n, at);
        leaves_in_has(t, file, position, i + 1, t.after(i), c, x);
    }
}

proof fn first_type(t: Syntax, lo: int, hi: int, ty: int)
    requires
        t.reaches(lo, hi, ty),
        t.named(ty),
        is_shape(t, ty) || t.kind(ty) == "type_identifier"@,
        forall|e: int| #[trigger] t.reaches(lo, hi, e) && e < ty
            ==> !(t.named(e) && (is_shape(t, e) || t.kind(e) == "type_identifier"@)),
    ensures
        type_in(t, lo, hi) == Some(ty),
    decreases hi - lo,
{
    if lo != ty {
        reached_is_behind(t, t.next(lo, hi), hi, ty);
        assert(t.reaches(lo, hi, lo));
        assert forall|e: int| #[trigger] t.reaches(t.next(lo, hi), hi, e) && e < ty implies !(t.named(e) && (is_shape(t, e) || t.kind(e) == "type_identifier"@)) by {
            assert(t.reaches(lo, hi, e));
        }
        first_type(t, t.next(lo, hi), hi, ty);
    }
}

/// A parameter of a function or a class, and a variable, refer to the type
/// names that the first type in them leads to.
pub proof fn types_are_referred_to(
    t: Syntax,
    file: Seq<char>,
    found: Seq<Seq<CaptureView>>,
    on_self: Seq<Seq<CaptureView>>,
    i: int,
    ty: int,
    position: TypeRefContext,
    n: int,
    at: TypeRefContext,
)
    requires
        t.nested(),
        0 <= i < t.after(0),
        is_open(t, i),
        ((t.kind(i) == "parameter"@ || t.kind(i) == "class_parameter"@) && position == TypeRefContext::ParameterType)
            || (t.kind(i) == "variable_declaration"@ && position == TypeRefContext::Field),
        t.has_child(i, ty),
        t.named(ty),
        is_shape(t, ty) || t.kind(ty) == "type_identifier"@,
        forall|e: int| #[trigger] t.has_child(i, e) && e < ty
            ==> !(t.named(e) && (is_shape(t, e) || t.kind(e) == "type_identifier"@)),
        leads_to(t, ty, position, n, at),
    ensures
        refers_to_type(facts_of(t, file, found, on_self), t, n, t.text(n), at),
{
    type_refs_at_kinds();
    is_type_shape_kinds();
    function_parts_in_kinds();
    let r = type_reference_at(t, file, n, t.text(n), at);
    reached_is_behind(t, i + 1, t.after(i), ty);
    assert forall|e: int| #[trigger] t.reaches(i + 1, t.after(i), e) && e < ty implies !(t.named(e) && (is_shape(t, e) || t.kind(e) == "type_identifier"@)) by {
        assert(t.has_child(i, e));
    }
    first_type(t, i + 1, t.after(i), ty);
    leaves_are_found(t, file, ty, position, n, at);
    in_either(typed_refs(t, file, position, i), untyped_parts_in(t, file, i + 1, t.after(i)), r);
    assert(type_refs_at(t, file, i).contains(r));
    type_refs_reach(t, file, 0, i, r);
    in_either(
        calls_marked(t.source, file, found, on_self) + inherits_at(t, file, 0)
            + imports_at(t, file, own_module(t, file), 0),
        type_refs_at(t, file, 0),
        r,
    );
    in_either(
        calls_marked(t.source, file, found, on_self) + inherits_at(t, file, 0)
            + imports_at(t, file, own_module(t, file), 0) + type_refs_at(t, file, 0),
        reads_at(t, file, 0),
        r,
    );
    in_either(
        calls_marked(t.source, file, found, on_self) + inherits_at(t, file, 0)
            + imports_at(t, file, own_module(t, file), 0) + type_refs_at(t, file, 0)
            + reads_at(t, file, 0),
        writes_at(t, file, 0),
        r,
    );
    is_reported(
        facts_of(t, file, found, on_self),
        references_of(t, file, own_module(t, file), found, on_self),
        r,
    );
}

proof fn result_is_found(
    t: Syntax,
    file: Seq<char>,
    lo: int,
    hi: int,
    past: bool,
    list: int,
    ty: int,
    x: ReferenceView,
)
    requires
        0 <= lo,
        hi <= t.len(),
        t.reaches(lo, hi, ty),
        t.named(ty),
        is_shape(t, ty),
        past
            || (t.reaches(lo, hi, list) && t.named(list) && t.kind(list) == "function_value_parameters"@ && list < ty),
        leaves_at(t, file, TypeRefContext::ReturnType, ty).contains(x),
    ensures
        function_parts_in(t, file, lo, hi, past).contains(x),
    decreases hi - lo,
{
    is_type_shape_kinds();
    let next = t.next(lo, hi);
    if lo == ty {
        if !past {
            reached_is_behind(t, lo, hi, list);
        }
        in_either(
            leaves_at(t, file, TypeRefContext::ReturnType, lo),
            function_parts_in(t, file, next, hi, past),
            x,
        );
    } else {
        let behind = past || (t.named(lo) && t.kind(lo) == "function_value_parameters"@);
        result_is_found(t, file, next, hi, behind, list, ty, x);
        if t.named(lo) {
            if t.kind(lo) == "function_value_parameters"@ {
                in_either(
                    named_type_refs_in(t, file, lo + 1, t.after(lo)),
                    function_parts_in(t, file, next, hi, true),
                    x,
                );
            } else if is_type_shape(t, lo) {
                let own = if past { leaves_at(t, file, TypeRefContext::ReturnType, lo) } else { Seq::empty() };
                in_either(own, function_parts_in(t, file, next, hi, past), x);
            } else {
                in_either(type_refs_at(t, file, lo), function_parts_in(t, file, next, hi, past), x);
            }
        }
    }
}

/// A function refers to the type names that a type behind its parameters leads
/// to.
pub proof fn result_types_are_referred_to(
    t: Syntax,
    file: Seq<char>,
    found: Seq<Seq<CaptureView>>,
    on_self: Seq<Seq<CaptureView>>,
    i: int,
    list: int,
    ty: int,
    n: int,
    at: TypeRefContext,
)
    requires
        t.nested(),
        0 <= i < t.after(0),
        is_open(t, i),
        t.kind(i) == "function_declaration"@,
        t.has_child(i, list),
        t.named(list),
        t.kind(list) == "function_value_parameters"@,
        t.has_child(i, ty),
        t.named(ty),
        is_shape(t, ty),
        list < ty,
        leads_to(t, ty, TypeRefContext::ReturnType, n, at),
    ensures
        refers_to_type(facts_of(t, file, found, on_self), t, n, t.text(n), at),
{
    type_refs_at_kinds();
    is_type_shape_kinds();
    function_parts_in_kinds();
    let r = type_reference_at(t, file, n, t.text(n), at);
    reached_is_behind(t, i + 1, t.after(i), ty);
    leaves_are_found(t, file, ty, TypeRefContext::ReturnType, n, at);
    result_is_found(t, file, i + 1, t.after(i), false, list, ty, r);
    assert(type_refs_at(t, file, i).contains(r));
    type_refs_reach(t, file, 0, i, r);
    in_either(
        calls_marked(t.source, file, found, on_self) + inherits_at(t, file, 0)
            + imports_at(t, file, own_module(t, file), 0),
        type_refs_at(t, file, 0),
        r,
    );
    in_either(
        calls_marked(t.source, file, found, on_self) + inherits_at(t, file, 0)
            + imports_at(t, file, own_module(t, file), 0) + type_refs_at(t, file, 0),
        reads_at(t, file, 0),
        r,
    );
    in_either(
        calls_marked(t.source, file, found, on_self) + inherits_at(t, file, 0)
            + imports_at(t, file, own_module(t, file), 0) + type_refs_at(t, file, 0)
            + reads_at(t, file, 0),
        writes_at(t, file, 0),
        r,
    );
    is_reported(
        facts_of(t, file, found, on_self),
        references_of(t, file, own_module(t, file), found, on_self),
        r,
    );
}

// ── Scopes ───────────────────────────────────────────────────────────────────

/// Whether a node opens a scope for what stands in it.
pub open spec fn is_holder(t: Syntax, k: int) -> bool {
    ||| t.kind(k) == "class_declaration"@
    ||| t.kind(k) == "object_declaration"@
    ||| t.kind(k) == "companion_object"@
    ||| t.kind(k) == "function_declaration"@
    ||| t.kind(k) == "anonymous_function"@
    ||| t.kind(k) == "secondary_constructor"@
    ||| t.kind(k) == "lambda_literal"@
}

/// The kind of the scope that a node opens.
pub open spec fn scope_kind(t: Syntax, k: int) -> ScopeKind {
    if t.kind(k) == "class_declaration"@ || t.kind(k) == "object_declaration"@
        || t.kind(k) == "companion_object"@ {
        ScopeKind::Type
    } else if t.kind(k) == "function_declaration"@ || t.kind(k) == "anonymous_function"@
        || t.kind(k) == "secondary_constructor"@ || t.kind(k) == "lambda_literal"@ {
        ScopeKind::Function
    } else {
        ScopeKind::Block
    }
}

/// Whether a node is the block that a function or a constructor consists of.
pub open spec fn is_body_block(t: Syntax, k: int) -> bool {
    t.parent(k) matches Some(p)
        && (t.kind(p) == "secondary_constructor"@ || (t.kind(p) == "function_body"@ && (t.parent(p) matches Some(f) && (t.kind(f) == "function_declaration"@ || t.kind(f) == "anonymous_function"@))))
}

/// Whether a node is the body of a function, or the block that it consists of.
spec fn is_body_part(t: Syntax, k: int) -> bool {
    ||| t.kind(k) == "block"@ && is_body_block(t, k)
    ||| t.kind(k) == "function_body"@
        && (t.parent(k) matches Some(f) && (t.kind(f) == "function_declaration"@ || t.kind(f) == "anonymous_function"@))
}

/// Whether a node opens a scope of its own: a holder, or a block that is not what a
/// function consists of.
pub open spec fn opens(t: Syntax, k: int) -> bool {
    is_holder(t, k) || (t.kind(k) == "block"@ && !is_body_block(t, k))
}

/// Whether `outer` is the innermost node from `from` on that opens a scope around
/// node `j`.
pub open spec fn is_nearest(t: Syntax, from: int, j: int, outer: Option<int>) -> bool {
    match outer {
        Some(a) => from <= a < j && j < t.after(a) && opens(t, a) && forall|k: int| a < k < j
            && j < #[trigger] t.after(k)
            ==> !opens(t, k),
        None => forall|k: int| from <= k < j && j < #[trigger] t.after(k) ==> !opens(t, k),
    }
}

proof fn scopes_are_kept(t: Syntax, i: int, parent: ScopeId, scopes: Seq<Scope>)
    ensures
        extends(scopes_with(t, i, parent, scopes), scopes),
        t.has(i) && (is_holder(t, i) || t.kind(i) == "block"@)
            ==> extends(
                scopes_with(t, i, parent, scopes),
                scopes.push(
                    Scope { parent: Some(parent), span: span_at(t, i), kind: scope_kind(t, i) },
                ),
            ),
    decreases t.left(i), 0nat,
{
    if t.has(i) {
        scopes_with_kinds();
        let opened = scopes.push(
            Scope { parent: Some(parent), span: span_at(t, i), kind: scope_kind(t, i) },
        );
        let id = scopes.len() as usize;
        if is_holder(t, i) {
            if t.kind(i) == "class_declaration"@ || t.kind(i) == "object_declaration"@
                || t.kind(i) == "companion_object"@ {
                type_scopes_are_kept(t, i + 1, t.after(i), id, opened);
            } else if t.kind(i) == "function_declaration"@ || t.kind(i) == "anonymous_function"@ {
                function_scopes_are_kept(t, i + 1, t.after(i), id, opened);
            } else if t.kind(i) == "secondary_constructor"@ {
                block_scopes_are_kept(t, i + 1, t.after(i), id, opened);
            } else {
                scopes_are_kept_in(t, i + 1, t.after(i), id, opened);
            }
        } else if t.kind(i) == "block"@ {
            scopes_are_kept_in(t, i + 1, t.after(i), id, opened);
        } else {
            scopes_are_kept_in(t, i + 1, t.after(i), parent, scopes);
        }
    }
}

proof fn scopes_are_kept_in(t: Syntax, lo: int, hi: int, parent: ScopeId, scopes: Seq<Scope>)
    ensures
        extends(scopes_with_all(t, lo, hi, parent, scopes), scopes),
    decreases t.left(lo), 1nat,
{
    if lo < hi && t.has(lo) {
        scopes_are_kept(t, lo, parent, scopes);
        scopes_are_kept_in(t, t.next(lo, hi), hi, parent, scopes_with(t, lo, parent, scopes));
    }
}

proof fn type_scopes_are_kept(t: Syntax, lo: int, hi: int, parent: ScopeId, scopes: Seq<Scope>)
    ensures
        extends(type_scopes(t, lo, hi, parent, scopes), scopes),
    decreases t.left(lo), 1nat,
{
    if lo < hi && t.has(lo) {
        if is_type_body(t, lo) {
            scopes_are_kept_in(t, lo + 1, t.after(lo), parent, scopes);
            type_scopes_are_kept(
                t,
                t.next(lo, hi),
                hi,
                parent,
                scopes_with_all(t, lo + 1, t.after(lo), parent, scopes),
            );
        } else {
            scopes_are_kept(t, lo, parent, scopes);
            type_scopes_are_kept(t, t.next(lo, hi), hi, parent, scopes_with(t, lo, parent, scopes));
        }
    }
}

proof fn block_scopes_are_kept(t: Syntax, lo: int, hi: int, parent: ScopeId, scopes: Seq<Scope>)
    ensures
        extends(block_scopes(t, lo, hi, parent, scopes), scopes),
    decreases t.left(lo), 1nat,
{
    if lo < hi && t.has(lo) {
        if t.kind(lo) == "block"@ {
            scopes_are_kept_in(t, lo + 1, t.after(lo), parent, scopes);
            block_scopes_are_kept(
                t,
                t.next(lo, hi),
                hi,
                parent,
                scopes_with_all(t, lo + 1, t.after(lo), parent, scopes),
            );
        } else {
            scopes_are_kept(t, lo, parent, scopes);
            block_scopes_are_kept(
                t,
                t.next(lo, hi),
                hi,
                parent,
                scopes_with(t, lo, parent, scopes),
            );
        }
    }
}

proof fn function_scopes_are_kept(t: Syntax, lo: int, hi: int, parent: ScopeId, scopes: Seq<Scope>)
    ensures
        extends(function_scopes(t, lo, hi, parent, scopes), scopes),
    decreases t.left(lo), 1nat,
{
    if lo < hi && t.has(lo) {
        if t.kind(lo) == "function_body"@ {
            let inner = if t.child_of_kind(lo, "block"@) is Some {
                block_scopes(t, lo + 1, t.after(lo), parent, scopes)
            } else {
                scopes_with_all(t, lo + 1, t.after(lo), parent, scopes)
            };
            block_scopes_are_kept(t, lo + 1, t.after(lo), parent, scopes);
            scopes_are_kept_in(t, lo + 1, t.after(lo), parent, scopes);
            function_scopes_are_kept(t, t.next(lo, hi), hi, parent, inner);
        } else {
            scopes_are_kept(t, lo, parent, scopes);
            function_scopes_are_kept(
                t,
                t.next(lo, hi),
                hi,
                parent,
                scopes_with(t, lo, parent, scopes),
            );
        }
    }
}

proof fn scope_is_opened(
    t: Syntax,
    i: int,
    parent: ScopeId,
    scopes: Seq<Scope>,
    j: int,
    outer: Option<int>,
)
    requires
        t.nested(),
        t.linked(),
        t.has(i),
        i <= j < t.after(i),
        opens(t, j),
        !is_body_part(t, i),
        is_nearest(t, i, j, outer),
        scopes_with(t, i, parent, scopes).len() <= usize::MAX,
    ensures
        opens_scope(
            scopes_with(t, i, parent, scopes),
            scopes.len() as int,
            t,
            j,
            scope_kind(t, j),
            parent,
            outer,
        ),
    decreases t.left(i), 0nat,
{
    scopes_with_kinds();
    block_kinds_apart();
    let opened = scopes.push(
        Scope { parent: Some(parent), span: span_at(t, i), kind: scope_kind(t, i) },
    );
    let id = scopes.len() as usize;
    let after = scopes_with(t, i, parent, scopes);
    scopes_are_kept(t, i, parent, scopes);
    if i == j {
        assert(after[scopes.len() as int] == opened[scopes.len() as int]);
    } else {
        let inner = if outer == Some(i) { None } else { outer };
        if is_holder(t, i) {
            assert(opens(t, i));
            assert(after[id as int] == opened[id as int]);
            if t.kind(i) == "class_declaration"@ || t.kind(i) == "object_declaration"@
                || t.kind(i) == "companion_object"@ {
            assert forall|c: int| #[trigger] t.reaches(i + 1, t.after(i), c) implies !is_body_part(t, c) by {
                assert(t.has_child(i, c));
            }
                type_scope_is_opened(t, i + 1, t.after(i), id, opened, j, inner);
            } else if t.kind(i) == "function_declaration"@ || t.kind(i) == "anonymous_function"@ {
                assert forall|c: int| #[trigger] t.reaches(i + 1, t.after(i), c) implies t.parent(c) == Some(i) && (t.kind(c) != "function_body"@ ==> !is_body_part(t, c)) by {
                    assert(t.has_child(i, c));
                }
                function_scope_is_opened(t, i, i + 1, t.after(i), id, opened, j, inner);
            } else if t.kind(i) == "secondary_constructor"@ {
                assert forall|c: int| #[trigger] t.reaches(i + 1, t.after(i), c) implies if t.kind(c) == "block"@ { is_body_block(t, c) } else { !is_body_part(t, c) } by {
                    assert(t.has_child(i, c));
                }
                block_scope_is_opened(t, i + 1, t.after(i), id, opened, j, inner);
            } else {
            assert forall|c: int| #[trigger] t.reaches(i + 1, t.after(i), c) implies !is_body_part(t, c) by {
                assert(t.has_child(i, c));
            }
                scope_is_opened_in(t, i + 1, t.after(i), id, opened, j, inner);
            }
            scope_is_within(after, t, i, j, scope_kind(t, j), id, parent, inner, outer);
        } else if t.kind(i) == "block"@ {
            assert(opens(t, i));
            assert(after[id as int] == opened[id as int]);
            assert forall|c: int| #[trigger] t.reaches(i + 1, t.after(i), c) implies !is_body_part(t, c) by {
                assert(t.has_child(i, c));
            }
            scope_is_opened_in(t, i + 1, t.after(i), id, opened, j, inner);
            scope_is_within(after, t, i, j, scope_kind(t, j), id, parent, inner, outer);
        } else {
            assert(!opens(t, i));
            assert forall|c: int| #[trigger] t.reaches(i + 1, t.after(i), c) implies !is_body_part(t, c) by {
                assert(t.has_child(i, c));
            }
            scope_is_opened_in(t, i + 1, t.after(i), parent, scopes, j, outer);
        }
    }
}

proof fn scope_is_opened_in(
    t: Syntax,
    lo: int,
    hi: int,
    parent: ScopeId,
    scopes: Seq<Scope>,
    j: int,
    outer: Option<int>,
)
    requires
        t.nested(),
        t.linked(),
        t.closed_range(lo, hi),
        lo <= j < hi,
        opens(t, j),
        forall|c: int| #[trigger] t.reaches(lo, hi, c) ==> !is_body_part(t, c),
        is_nearest(t, lo, j, outer),
        scopes_with_all(t, lo, hi, parent, scopes).len() <= usize::MAX,
    ensures
        opens_scope(
            scopes_with_all(t, lo, hi, parent, scopes),
            scopes.len() as int,
            t,
            j,
            scope_kind(t, j),
            parent,
            outer,
        ),
    decreases t.left(lo), 1nat,
{
    let next = t.next(lo, hi);
    assert(t.reaches(lo, hi, lo));
    assert forall|c: int| #[trigger] t.reaches(next, hi, c) implies t.reaches(lo, hi, c) by {}
    let first = scopes_with(t, lo, parent, scopes);
    let all = scopes_with_all(t, lo, hi, parent, scopes);
    scopes_are_kept(t, lo, parent, scopes);
    scopes_are_kept_in(t, next, hi, parent, first);
    if j < t.after(lo) {
        scope_is_opened(t, lo, parent, scopes, j, outer);
        opens_scope_stays(
            first,
            all,
            scopes.len() as int,
            scopes.len() as int,
            t,
            j,
            scope_kind(t, j),
            parent,
            outer,
        );
    } else {
        nearest_is_later(t, lo, next, j, outer);
        scope_is_opened_in(t, next, hi, parent, first, j, outer);
        opens_scope_stays(
            all,
            all,
            first.len() as int,
            scopes.len() as int,
            t,
            j,
            scope_kind(t, j),
            parent,
            outer,
        );
    }
}

proof fn nearest_is_later(t: Syntax, lo: int, next: int, j: int, outer: Option<int>)
    requires
        t.nested(),
        0 <= lo < t.len(),
        next == t.after(lo),
        next <= j,
        is_nearest(t, lo, j, outer),
    ensures
        is_nearest(t, next, j, outer),
{
    if let Some(a) = outer {
        if a < next {
            assert(t.after(a) <= t.after(lo));
        }
    }
}

proof fn type_scope_is_opened(
    t: Syntax,
    lo: int,
    hi: int,
    parent: ScopeId,
    scopes: Seq<Scope>,
    j: int,
    outer: Option<int>,
)
    requires
        t.nested(),
        t.linked(),
        t.closed_range(lo, hi),
        lo <= j < hi,
        opens(t, j),
        forall|c: int| #[trigger] t.reaches(lo, hi, c) ==> !is_body_part(t, c),
        is_nearest(t, lo, j, outer),
        type_scopes(t, lo, hi, parent, scopes).len() <= usize::MAX,
    ensures
        opens_scope(
            type_scopes(t, lo, hi, parent, scopes),
            scopes.len() as int,
            t,
            j,
            scope_kind(t, j),
            parent,
            outer,
        ),
    decreases t.left(lo), 1nat,
{
    let next = t.next(lo, hi);
    assert(t.reaches(lo, hi, lo));
    assert forall|c: int| #[trigger] t.reaches(next, hi, c) implies t.reaches(lo, hi, c) by {}
    if is_type_body(t, lo) {
        let first = scopes_with_all(t, lo + 1, t.after(lo), parent, scopes);
        let all = type_scopes(t, lo, hi, parent, scopes);
        scopes_are_kept_in(t, lo + 1, t.after(lo), parent, scopes);
        type_scopes_are_kept(t, next, hi, parent, first);
        if j < t.after(lo) {
            is_type_body_kinds();
            block_kinds_apart();
            assert(!opens(t, lo));
            assert forall|c: int| #[trigger] t.reaches(lo + 1, t.after(lo), c) implies !is_body_part(t, c) by {
                assert(t.has_child(lo, c));
            }
            scope_is_opened_in(t, lo + 1, t.after(lo), parent, scopes, j, outer);
            opens_scope_stays(
                first,
                all,
                scopes.len() as int,
                scopes.len() as int,
                t,
                j,
                scope_kind(t, j),
                parent,
                outer,
            );
        } else {
            nearest_is_later(t, lo, next, j, outer);
            type_scope_is_opened(t, next, hi, parent, first, j, outer);
            opens_scope_stays(
                all,
                all,
                first.len() as int,
                scopes.len() as int,
                t,
                j,
                scope_kind(t, j),
                parent,
                outer,
            );
        }
    } else {
        let first = scopes_with(t, lo, parent, scopes);
        let all = type_scopes(t, lo, hi, parent, scopes);
        scopes_are_kept(t, lo, parent, scopes);
        type_scopes_are_kept(t, next, hi, parent, first);
        if j < t.after(lo) {
            scope_is_opened(t, lo, parent, scopes, j, outer);
            opens_scope_stays(
                first,
                all,
                scopes.len() as int,
                scopes.len() as int,
                t,
                j,
                scope_kind(t, j),
                parent,
                outer,
            );
        } else {
            nearest_is_later(t, lo, next, j, outer);
            type_scope_is_opened(t, next, hi, parent, first, j, outer);
            opens_scope_stays(
                all,
                all,
                first.len() as int,
                scopes.len() as int,
                t,
                j,
                scope_kind(t, j),
                parent,
                outer,
            );
        }
    }
}

proof fn block_scope_is_opened(
    t: Syntax,
    lo: int,
    hi: int,
    parent: ScopeId,
    scopes: Seq<Scope>,
    j: int,
    outer: Option<int>,
)
    requires
        t.nested(),
        t.linked(),
        t.closed_range(lo, hi),
        lo <= j < hi,
        opens(t, j),
        forall|c: int| #[trigger] t.reaches(lo, hi, c)
            ==> if t.kind(c) == "block"@ { is_body_block(t, c) } else { !is_body_part(t, c) },
        is_nearest(t, lo, j, outer),
        block_scopes(t, lo, hi, parent, scopes).len() <= usize::MAX,
    ensures
        opens_scope(
            block_scopes(t, lo, hi, parent, scopes),
            scopes.len() as int,
            t,
            j,
            scope_kind(t, j),
            parent,
            outer,
        ),
    decreases t.left(lo), 1nat,
{
    let next = t.next(lo, hi);
    assert(t.reaches(lo, hi, lo));
    assert forall|c: int| #[trigger] t.reaches(next, hi, c) implies t.reaches(lo, hi, c) by {}
    if t.kind(lo) == "block"@ {
        let first = scopes_with_all(t, lo + 1, t.after(lo), parent, scopes);
        let all = block_scopes(t, lo, hi, parent, scopes);
        scopes_are_kept_in(t, lo + 1, t.after(lo), parent, scopes);
        block_scopes_are_kept(t, next, hi, parent, first);
        if j < t.after(lo) {
            scopes_with_kinds();
            block_kinds_apart();
            assert(!opens(t, lo));
            assert forall|c: int| #[trigger] t.reaches(lo + 1, t.after(lo), c) implies !is_body_part(t, c) by {
                assert(t.has_child(lo, c));
            }
            scope_is_opened_in(t, lo + 1, t.after(lo), parent, scopes, j, outer);
            opens_scope_stays(
                first,
                all,
                scopes.len() as int,
                scopes.len() as int,
                t,
                j,
                scope_kind(t, j),
                parent,
                outer,
            );
        } else {
            nearest_is_later(t, lo, next, j, outer);
            block_scope_is_opened(t, next, hi, parent, first, j, outer);
            opens_scope_stays(
                all,
                all,
                first.len() as int,
                scopes.len() as int,
                t,
                j,
                scope_kind(t, j),
                parent,
                outer,
            );
        }
    } else {
        let first = scopes_with(t, lo, parent, scopes);
        let all = block_scopes(t, lo, hi, parent, scopes);
        scopes_are_kept(t, lo, parent, scopes);
        block_scopes_are_kept(t, next, hi, parent, first);
        if j < t.after(lo) {
            scope_is_opened(t, lo, parent, scopes, j, outer);
            opens_scope_stays(
                first,
                all,
                scopes.len() as int,
                scopes.len() as int,
                t,
                j,
                scope_kind(t, j),
                parent,
                outer,
            );
        } else {
            nearest_is_later(t, lo, next, j, outer);
            block_scope_is_opened(t, next, hi, parent, first, j, outer);
            opens_scope_stays(
                all,
                all,
                first.len() as int,
                scopes.len() as int,
                t,
                j,
                scope_kind(t, j),
                parent,
                outer,
            );
        }
    }
}

proof fn function_scope_is_opened(
    t: Syntax,
    owner: int,
    lo: int,
    hi: int,
    parent: ScopeId,
    scopes: Seq<Scope>,
    j: int,
    outer: Option<int>,
)
    requires
        t.nested(),
        t.linked(),
        t.closed_range(lo, hi),
        lo <= j < hi,
        opens(t, j),
        forall|c: int| #[trigger] t.reaches(lo, hi, c) && t.kind(c) != "function_body"@
            ==> !is_body_part(t, c),
        t.kind(owner) == "function_declaration"@ || t.kind(owner) == "anonymous_function"@,
        forall|c: int| #[trigger] t.reaches(lo, hi, c) ==> t.parent(c) == Some(owner),
        is_nearest(t, lo, j, outer),
        function_scopes(t, lo, hi, parent, scopes).len() <= usize::MAX,
    ensures
        opens_scope(
            function_scopes(t, lo, hi, parent, scopes),
            scopes.len() as int,
            t,
            j,
            scope_kind(t, j),
            parent,
            outer,
        ),
    decreases t.left(lo), 1nat,
{
    let next = t.next(lo, hi);
    assert(t.reaches(lo, hi, lo));
    assert forall|c: int| #[trigger] t.reaches(next, hi, c) implies t.reaches(lo, hi, c) by {}
    if t.kind(lo) == "function_body"@ {
        let first = if t.child_of_kind(lo, "block"@) is Some {
            block_scopes(t, lo + 1, t.after(lo), parent, scopes)
        } else {
            scopes_with_all(t, lo + 1, t.after(lo), parent, scopes)
        };
        let all = function_scopes(t, lo, hi, parent, scopes);
        scopes_are_kept_in(t, lo + 1, t.after(lo), parent, scopes);
        block_scopes_are_kept(t, lo + 1, t.after(lo), parent, scopes);
        function_scopes_are_kept(t, next, hi, parent, first);
        if j < t.after(lo) {
            block_kinds_apart();
            assert(!opens(t, lo));
            if t.child_of_kind(lo, "block"@) is Some {
                assert forall|c: int| #[trigger] t.reaches(lo + 1, t.after(lo), c) implies if t.kind(c) == "block"@ { is_body_block(t, c) } else { !is_body_part(t, c) } by {
                    assert(t.has_child(lo, c));
                }
                block_scope_is_opened(t, lo + 1, t.after(lo), parent, scopes, j, outer);
            } else {
                assert forall|c: int| #[trigger] t.reaches(lo + 1, t.after(lo), c) implies !is_body_part(t, c) by {
                    assert(t.has_child(lo, c));
                    none_of_kind(t, lo + 1, t.after(lo), "block"@, c);
                }
                scope_is_opened_in(t, lo + 1, t.after(lo), parent, scopes, j, outer);
            }
            opens_scope_stays(
                first,
                all,
                scopes.len() as int,
                scopes.len() as int,
                t,
                j,
                scope_kind(t, j),
                parent,
                outer,
            );
        } else {
            nearest_is_later(t, lo, next, j, outer);
            function_scope_is_opened(t, owner, next, hi, parent, first, j, outer);
            opens_scope_stays(
                all,
                all,
                first.len() as int,
                scopes.len() as int,
                t,
                j,
                scope_kind(t, j),
                parent,
                outer,
            );
        }
    } else {
        let first = scopes_with(t, lo, parent, scopes);
        let all = function_scopes(t, lo, hi, parent, scopes);
        scopes_are_kept(t, lo, parent, scopes);
        function_scopes_are_kept(t, next, hi, parent, first);
        if j < t.after(lo) {
            scope_is_opened(t, lo, parent, scopes, j, outer);
            opens_scope_stays(
                first,
                all,
                scopes.len() as int,
                scopes.len() as int,
                t,
                j,
                scope_kind(t, j),
                parent,
                outer,
            );
        } else {
            nearest_is_later(t, lo, next, j, outer);
            function_scope_is_opened(t, owner, next, hi, parent, first, j, outer);
            opens_scope_stays(
                all,
                all,
                first.len() as int,
                scopes.len() as int,
                t,
                j,
                scope_kind(t, j),
                parent,
                outer,
            );
        }
    }
}

proof fn none_of_kind(t: Syntax, lo: int, hi: int, kind: Seq<char>, c: int)
    requires
        t.first_of_kind(lo, hi, kind) is None,
        t.reaches(lo, hi, c),
    ensures
        t.kind(c) != kind,
    decreases hi - lo,
{
    if lo != c {
        none_of_kind(t, t.next(lo, hi), hi, kind, c);
    }
}

proof fn block_kinds_apart()
    ensures
        "block"@ != "class_declaration"@,
        "block"@ != "object_declaration"@,
        "block"@ != "companion_object"@,
        "block"@ != "function_declaration"@,
        "block"@ != "anonymous_function"@,
        "block"@ != "secondary_constructor"@,
        "block"@ != "lambda_literal"@,
        "block"@ != "function_body"@,
        "block"@ != "class_body"@,
        "block"@ != "enum_class_body"@,
        "block"@ != "secondary_constructor"@,
        "function_body"@ != "class_declaration"@,
        "function_body"@ != "object_declaration"@,
        "function_body"@ != "companion_object"@,
        "function_body"@ != "function_declaration"@,
        "function_body"@ != "anonymous_function"@,
        "function_body"@ != "secondary_constructor"@,
        "function_body"@ != "lambda_literal"@,
        "function_body"@ != "class_body"@,
        "function_body"@ != "enum_class_body"@,
        "function_body"@ != "secondary_constructor"@,
{
    reveal_strlit("block");
    reveal_strlit("class_declaration");
    reveal_strlit("object_declaration");
    reveal_strlit("companion_object");
    reveal_strlit("function_declaration");
    reveal_strlit("anonymous_function");
    reveal_strlit("secondary_constructor");
    reveal_strlit("lambda_literal");
    reveal_strlit("function_body");
    reveal_strlit("class_body");
    reveal_strlit("enum_class_body");
    assert("block"@.len() != "class_declaration"@.len());
    assert("block"@.len() != "object_declaration"@.len());
    assert("block"@.len() != "companion_object"@.len());
    assert("block"@.len() != "function_declaration"@.len());
    assert("block"@.len() != "anonymous_function"@.len());
    assert("block"@.len() != "secondary_constructor"@.len());
    assert("block"@.len() != "lambda_literal"@.len());
    assert("block"@.len() != "function_body"@.len());
    assert("block"@.len() != "class_body"@.len());
    assert("block"@.len() != "enum_class_body"@.len());
    assert("function_body"@.len() != "class_declaration"@.len());
    assert("function_body"@.len() != "object_declaration"@.len());
    assert("function_body"@.len() != "companion_object"@.len());
    assert("function_body"@.len() != "function_declaration"@.len());
    assert("function_body"@.len() != "anonymous_function"@.len());
    assert("function_body"@.len() != "secondary_constructor"@.len());
    assert("function_body"@.len() != "lambda_literal"@.len());
    assert("function_body"@.len() != "class_body"@.len());
    assert("function_body"@.len() != "enum_class_body"@.len());
}

/// A type, a function, a constructor and a lambda literal open a scope of their
/// own, and so does each block that is not the body of one. Its parent is the
/// scope of the innermost of these around it, or that of the file.
pub proof fn scopes_are_opened(
    t: Syntax,
    file: Seq<char>,
    found: Seq<Seq<CaptureView>>,
    on_self: Seq<Seq<CaptureView>>,
    j: int,
    outer: Option<int>,
)
    requires
        t.nested(),
        t.linked(),
        1 <= j < t.after(0),
        opens(t, j),
        !is_holder(t, 0),
        t.kind(0) != "function_body"@,
        is_nearest(t, 1, j, outer),
        facts_of(t, file, found, on_self).scopes.len() <= usize::MAX,
    ensures
        opens_scope(facts_of(t, file, found, on_self).scopes, 1, t, j, scope_kind(t, j), 0, outer),
{
    block_kinds_apart();
    let first = seq![module_scope(byte_count(t.source) as int)];
    assert forall|c: int| #[trigger] t.reaches(1, t.after(0), c) implies !is_body_part(t, c) by {
                assert(t.has_child(0, c));
            }
    scope_is_opened_in(t, 1, t.after(0), 0, first, j, outer);
}

// ── Modules ──────────────────────────────────────────────────────────────────

/// The namespaces that the path of a file gives it.
spec fn path_namespaces(file: Seq<char>) -> Seq<Seq<char>> {
    let stem = if has_suffix(file, ".kts"@) { without_suffix(file, ".kts"@) } else { without_suffix(file, ".kt"@) };
    segments(without_prefix(stem, "src/"@), '/')
}

proof fn path_gives_namespaces(root: Seq<char>, parts: Seq<Seq<char>>, ext: Seq<char>)
    requires
        parts.len() > 0,
        are_parts(parts, '/'),
        ext == ".kts"@ || ext == ".kt"@,
        root == "src/"@ || (root.len() == 0 && !has_prefix(join(parts, '/'), "src/"@)),
    ensures
        path_namespaces(root + join(parts, '/') + ext) == parts,
{
    reveal_strlit(".kts");
    reveal_strlit(".kt");
    reveal_strlit("src/");
    let body = join(parts, '/');
    let stem = root + body;
    joined_comes_apart(parts, '/');
    own_suffix(stem, ext);
    if ext == ".kts"@ {
        other_suffix(stem, ".kts"@, ".kt"@, 1);
    }
    if ext == ".kt"@ {
        other_suffix(stem, ".kt"@, ".kts"@, 1);
    }
    prefix_comes_off(root, body);
    if root == "src/"@ {
    }
    if root.len() == 0 {
        assert(stem =~= body);
    }
}

/// The module of a Kotlin file that declares no package has the pieces of the
/// path of the file as its names, without `src/` in front and without the
/// extension.
pub proof fn paths_name_modules(
    t: Syntax,
    file: Seq<char>,
    found: Seq<Seq<CaptureView>>,
    on_self: Seq<Seq<CaptureView>>,
    root: Seq<char>,
    parts: Seq<Seq<char>>,
    ext: Seq<char>,
)
    requires
        parts.len() > 0,
        are_parts(parts, '/'),
        ext == ".kts"@ || ext == ".kt"@,
        root == "src/"@ || (root.len() == 0 && !has_prefix(join(parts, '/'), "src/"@)),
        file == root + join(parts, '/') + ext,
        forall|e: int| #[trigger] t.reaches(1, t.after(0), e) ==> t.kind(e) != "package_header"@,
    ensures
        is_module(facts_of(t, file, found, on_self), parts),
{
    none_is_declared(t, 1, t.after(0));
    path_gives_namespaces(root, parts, ext);
}

proof fn none_is_declared(t: Syntax, lo: int, hi: int)
    requires
        forall|e: int| #[trigger] t.reaches(lo, hi, e) ==> t.kind(e) != "package_header"@,
    ensures
        declared_package(t, lo, hi) is None,
    decreases hi - lo,
{
    if lo < hi {
        assert(t.reaches(lo, hi, lo));
        assert forall|e: int| #[trigger] t.reaches(t.next(lo, hi), hi, e) implies t.kind(e) != "package_header"@ by {
            assert(t.reaches(lo, hi, e));
        }
        none_is_declared(t, t.next(lo, hi), hi);
    }
}

proof fn first_package(t: Syntax, lo: int, hi: int, p: int, name: Seq<char>)
    requires
        t.reaches(lo, hi, p),
        t.kind(p) == "package_header"@,
        name_in(t, p + 1, t.after(p)) matches Some(n) && t.text(n) == name,
        forall|e: int| #[trigger] t.reaches(lo, hi, e) && e < p ==> t.kind(e) != "package_header"@,
    ensures
        declared_package(t, lo, hi) == Some(name),
    decreases hi - lo,
{
    if lo != p {
        reached_is_behind(t, t.next(lo, hi), hi, p);
        assert(t.reaches(lo, hi, lo));
        assert forall|e: int| #[trigger] t.reaches(t.next(lo, hi), hi, e) && e < p implies t.kind(e) != "package_header"@ by {
            assert(t.reaches(lo, hi, e));
        }
        first_package(t, t.next(lo, hi), hi, p, name);
    }
}

/// The module of a Kotlin file has the pieces of the package that the file
/// declares first as its names.
pub proof fn packages_name_modules(
    t: Syntax,
    file: Seq<char>,
    found: Seq<Seq<CaptureView>>,
    on_self: Seq<Seq<CaptureView>>,
    p: int,
    n: int,
    parts: Seq<Seq<char>>,
)
    requires
        parts.len() > 0,
        are_parts(parts, '.'),
        t.has_child(0, p),
        t.kind(p) == "package_header"@,
        forall|e: int| #[trigger] t.has_child(0, e) && e < p ==> t.kind(e) != "package_header"@,
        t.has_child(p, n),
        t.kind(n) == "qualified_identifier"@ || t.kind(n) == "identifier"@,
        forall|e: int| #[trigger] t.has_child(p, e) && e < n
            ==> !(t.kind(e) == "qualified_identifier"@ || t.kind(e) == "identifier"@),
        t.text(n) == join(parts, '.'),
    ensures
        is_module(facts_of(t, file, found, on_self), parts),
{
    joined_comes_apart(parts, '.');
    assert forall|e: int| #[trigger] t.reaches(p + 1, t.after(p), e) && e < n implies !(t.kind(e) == "qualified_identifier"@ || t.kind(e) == "identifier"@) by {
        assert(t.has_child(p, e));
    }
    first_name(t, p + 1, t.after(p), n);
    assert forall|e: int| #[trigger] t.reaches(1, t.after(0), e) && e < p implies t.kind(e) != "package_header"@ by {
        assert(t.has_child(0, e));
    }
    first_package(t, 1, t.after(0), p, t.text(n));
}

/// Each definition of a file stands in the module of the file where the file is
/// in a namespace: its identity extends that of the module.
pub proof fn definitions_stand_in_modules(
    t: Syntax,
    file: Seq<char>,
    found: Seq<Seq<CaptureView>>,
    on_self: Seq<Seq<CaptureView>>,
    k: int,
)
    requires
        0 <= k < facts_of(t, file, found, on_self).symbols.len() - 1,
        namespaces_of(t, file).len() > 0,
    ensures
        extends_module(facts_of(t, file, found, on_self), k),
{
    let c = context(t, file);
    let prefix = steps(t, file);
    let f = facts_of(t, file, found, on_self);
    definitions_belong(c, prefix, false, 1, t.after(0));
    let defs = decls_in(c, prefix, false, 1, t.after(0));
    assert(f.symbols[k] == defs[k]);
    assert(f.symbols.last() == f.symbols[f.symbols.len() - 1]);
    assert(is_defined(c, prefix, defs[k]));
    assert(belongs(c, prefix, defs[k]));
}

// ── Nothing else is read or written ──────────────────────────────────────────

/// Whether the identifier `i` below `p` stands as a value: it is not called, assigned
/// to or introduced there.
pub open spec fn is_value_below(t: Syntax, p: int, i: int) -> bool {
    &&& t.kind(p) == "call_expression"@ ==> !(t.named_child(p) == Some(i))
    &&& t.kind(p) == "function_declaration"@ ==> !(t.child(p, "name"@) == Some(i))
    &&& t.kind(p) == "class_declaration"@ ==> !(t.child(p, "name"@) == Some(i))
    &&& t.kind(p) == "object_declaration"@ ==> !(t.child(p, "name"@) == Some(i))
    &&& t.kind(p) == "companion_object"@ ==> !(t.child(p, "name"@) == Some(i))
    &&& t.kind(p) == "type_alias"@ ==> !(t.child(p, "type"@) == Some(i))
    &&& t.kind(p) == "variable_declaration"@
        ==> !(t.named_child_of_kind(p, "identifier"@) == Some(i))
    &&& t.kind(p) == "parameter"@ ==> !(t.named_child_of_kind(p, "identifier"@) == Some(i))
    &&& t.kind(p) == "class_parameter"@ ==> !(t.named_child_of_kind(p, "identifier"@) == Some(i))
    &&& t.kind(p) == "assignment"@ ==> !(t.child(p, "left"@) == Some(i))
    &&& t.kind(p) == "import"@ ==> false
    &&& t.kind(p) == "qualified_identifier"@ ==> false
    &&& t.kind(p) == "package_header"@ ==> false
    &&& t.kind(p) == "user_type"@ ==> false
    &&& t.kind(p) == "type_identifier"@ ==> false
}

/// Each read of a file is of an identifier that is long enough and stands as a
/// value.
pub proof fn reads_are_values(t: Syntax, file: Seq<char>, k: int) -> (at: (int, int))
    requires
        t.nested(),
        t.has(0),
        identifiers_apart(t),
        0 <= k < reads_at(t, file, 0).len(),
    ensures
        0 <= at.1 < t.after(0),
        t.kind(at.1) == "identifier"@,
        long_enough(t.text(at.1)),
        t.parent(at.1) == Some(at.0),
        is_value_below(t, at.0, at.1),
        reads_at(t, file, 0)[k] == reference_at(t, file, at.1, t.text(at.1), RefRole::Read),
{
    reads_are_sound(t, file, k);
    let i = choose|i: int| 0 <= i < t.after(0) && #[trigger] is_read(t, i)
        && reads_at(t, file, 0)[k] == reference_at(t, file, i, t.text(i), RefRole::Read);
    let p = t.parent(i)->0;
    read_is_value(t, p, i);
    (p, i)
}

proof fn read_is_value(t: Syntax, p: int, i: int)
    requires
        t.parent(i) == Some(p),
        !not_read(t, i),
    ensures
        is_value_below(t, p, i),
{
    read_kinds();
}

proof fn read_kinds()
    ensures
        "call_expression"@ != "navigation_expression"@,
        "call_expression"@ != "function_declaration"@,
        "call_expression"@ != "class_declaration"@,
        "call_expression"@ != "object_declaration"@,
        "call_expression"@ != "companion_object"@,
        "call_expression"@ != "type_alias"@,
        "call_expression"@ != "variable_declaration"@,
        "call_expression"@ != "parameter"@,
        "call_expression"@ != "class_parameter"@,
        "call_expression"@ != "assignment"@,
        "call_expression"@ != "import"@,
        "call_expression"@ != "qualified_identifier"@,
        "call_expression"@ != "package_header"@,
        "call_expression"@ != "user_type"@,
        "call_expression"@ != "type_identifier"@,
        "function_declaration"@ != "navigation_expression"@,
        "function_declaration"@ != "class_declaration"@,
        "function_declaration"@ != "object_declaration"@,
        "function_declaration"@ != "companion_object"@,
        "function_declaration"@ != "type_alias"@,
        "function_declaration"@ != "variable_declaration"@,
        "function_declaration"@ != "parameter"@,
        "function_declaration"@ != "class_parameter"@,
        "function_declaration"@ != "assignment"@,
        "function_declaration"@ != "import"@,
        "function_declaration"@ != "qualified_identifier"@,
        "function_declaration"@ != "package_header"@,
        "function_declaration"@ != "user_type"@,
        "function_declaration"@ != "type_identifier"@,
        "class_declaration"@ != "navigation_expression"@,
        "class_declaration"@ != "object_declaration"@,
        "class_declaration"@ != "companion_object"@,
        "class_declaration"@ != "type_alias"@,
        "class_declaration"@ != "variable_declaration"@,
        "class_declaration"@ != "parameter"@,
        "class_declaration"@ != "class_parameter"@,
        "class_declaration"@ != "assignment"@,
        "class_declaration"@ != "import"@,
        "class_declaration"@ != "qualified_identifier"@,
        "class_declaration"@ != "package_header"@,
        "class_declaration"@ != "user_type"@,
        "class_declaration"@ != "type_identifier"@,
        "object_declaration"@ != "navigation_expression"@,
        "object_declaration"@ != "companion_object"@,
        "object_declaration"@ != "type_alias"@,
        "object_declaration"@ != "variable_declaration"@,
        "object_declaration"@ != "parameter"@,
        "object_declaration"@ != "class_parameter"@,
        "object_declaration"@ != "assignment"@,
        "object_declaration"@ != "import"@,
        "object_declaration"@ != "qualified_identifier"@,
        "object_declaration"@ != "package_header"@,
        "object_declaration"@ != "user_type"@,
        "object_declaration"@ != "type_identifier"@,
        "companion_object"@ != "navigation_expression"@,
        "companion_object"@ != "type_alias"@,
        "companion_object"@ != "variable_declaration"@,
        "companion_object"@ != "parameter"@,
        "companion_object"@ != "class_parameter"@,
        "companion_object"@ != "assignment"@,
        "companion_object"@ != "import"@,
        "companion_object"@ != "qualified_identifier"@,
        "companion_object"@ != "package_header"@,
        "companion_object"@ != "user_type"@,
        "companion_object"@ != "type_identifier"@,
        "type_alias"@ != "navigation_expression"@,
        "type_alias"@ != "variable_declaration"@,
        "type_alias"@ != "parameter"@,
        "type_alias"@ != "class_parameter"@,
        "type_alias"@ != "assignment"@,
        "type_alias"@ != "import"@,
        "type_alias"@ != "qualified_identifier"@,
        "type_alias"@ != "package_header"@,
        "type_alias"@ != "user_type"@,
        "type_alias"@ != "type_identifier"@,
        "variable_declaration"@ != "navigation_expression"@,
        "variable_declaration"@ != "parameter"@,
        "variable_declaration"@ != "class_parameter"@,
        "variable_declaration"@ != "assignment"@,
        "variable_declaration"@ != "import"@,
        "variable_declaration"@ != "qualified_identifier"@,
        "variable_declaration"@ != "package_header"@,
        "variable_declaration"@ != "user_type"@,
        "variable_declaration"@ != "type_identifier"@,
        "parameter"@ != "navigation_expression"@,
        "parameter"@ != "class_parameter"@,
        "parameter"@ != "assignment"@,
        "parameter"@ != "import"@,
        "parameter"@ != "qualified_identifier"@,
        "parameter"@ != "package_header"@,
        "parameter"@ != "user_type"@,
        "parameter"@ != "type_identifier"@,
        "class_parameter"@ != "navigation_expression"@,
        "class_parameter"@ != "assignment"@,
        "class_parameter"@ != "import"@,
        "class_parameter"@ != "qualified_identifier"@,
        "class_parameter"@ != "package_header"@,
        "class_parameter"@ != "user_type"@,
        "class_parameter"@ != "type_identifier"@,
        "assignment"@ != "navigation_expression"@,
        "assignment"@ != "import"@,
        "assignment"@ != "qualified_identifier"@,
        "assignment"@ != "package_header"@,
        "assignment"@ != "user_type"@,
        "assignment"@ != "type_identifier"@,
        "import"@ != "navigation_expression"@,
        "import"@ != "qualified_identifier"@,
        "import"@ != "package_header"@,
        "import"@ != "user_type"@,
        "import"@ != "type_identifier"@,
        "qualified_identifier"@ != "navigation_expression"@,
        "qualified_identifier"@ != "package_header"@,
        "qualified_identifier"@ != "user_type"@,
        "qualified_identifier"@ != "type_identifier"@,
        "package_header"@ != "navigation_expression"@,
        "package_header"@ != "user_type"@,
        "package_header"@ != "type_identifier"@,
        "user_type"@ != "navigation_expression"@,
        "user_type"@ != "type_identifier"@,
        "type_identifier"@ != "navigation_expression"@,
{
    reveal_strlit("call_expression");
    reveal_strlit("navigation_expression");
    reveal_strlit("function_declaration");
    reveal_strlit("class_declaration");
    reveal_strlit("object_declaration");
    reveal_strlit("companion_object");
    reveal_strlit("type_alias");
    reveal_strlit("variable_declaration");
    reveal_strlit("parameter");
    reveal_strlit("class_parameter");
    reveal_strlit("assignment");
    reveal_strlit("import");
    reveal_strlit("qualified_identifier");
    reveal_strlit("package_header");
    reveal_strlit("user_type");
    reveal_strlit("type_identifier");
    assert("call_expression"@.len() == 15);
    assert("navigation_expression"@.len() == 21);
    assert("function_declaration"@.len() == 20);
    assert("class_declaration"@.len() == 17);
    assert("object_declaration"@.len() == 18);
    assert("companion_object"@.len() == 16);
    assert("type_alias"@.len() == 10);
    assert("variable_declaration"@.len() == 20);
    assert("parameter"@.len() == 9);
    assert("class_parameter"@.len() == 15);
    assert("assignment"@.len() == 10);
    assert("import"@.len() == 6);
    assert("qualified_identifier"@.len() == 20);
    assert("package_header"@.len() == 14);
    assert("user_type"@.len() == 9);
    assert("type_identifier"@.len() == 15);
    assert("call_expression"@[1] != "class_parameter"@[1]);
    assert("call_expression"@[0] != "type_identifier"@[0]);
    assert("function_declaration"@[0] != "variable_declaration"@[0]);
    assert("function_declaration"@[0] != "qualified_identifier"@[0]);
    assert("type_alias"@[0] != "assignment"@[0]);
    assert("variable_declaration"@[0] != "qualified_identifier"@[0]);
    assert("parameter"@[0] != "user_type"@[0]);
    assert("class_parameter"@[0] != "type_identifier"@[0]);
}

/// Whether node `n` is an identifier that is long enough and that node `i` assigns to.
pub open spec fn is_assigned(t: Syntax, i: int, n: int) -> bool {
    t.kind(n) == "identifier"@ && long_enough(t.text(n)) && t.kind(i) == "assignment"@
        && t.child(i, "left"@) == Some(n)
}

/// Each write of a file is of an identifier that is long enough and that an
/// assignment assigns to.
pub proof fn writes_are_targets(t: Syntax, file: Seq<char>, k: int) -> (at: (int, int))
    requires
        t.nested(),
        t.has(0),
        0 <= k < writes_at(t, file, 0).len(),
    ensures
        0 <= at.0 < t.after(0),
        is_assigned(t, at.0, at.1),
        writes_at(t, file, 0)[k] == reference_at(t, file, at.1, t.text(at.1), RefRole::Write),
{
    let items = writes_of_nodes(t, file);
    let is_one = |r: ReferenceView| exists|i: int, n: int| 0 <= i < t.after(0)
        && #[trigger] is_assigned(t, i, n)
        && r == reference_at(t, file, n, t.text(n), RefRole::Write);
    writes_in_document_order(t, file, 0);
    assert forall|i: int, e: int| 0 <= i < t.after(0) && 0 <= e < items(i).len() implies is_one(#[trigger] items(i)[e]) by {
        assert(is_assigned(t, i, t.child(i, "left"@)->0));
    }
    in_order_all(items, 0, t.after(0), is_one);
    assert(is_one(writes_at(t, file, 0)[k]));
    choose|i: int, n: int| 0 <= i < t.after(0) && #[trigger] is_assigned(t, i, n)
        && writes_at(t, file, 0)[k] == reference_at(t, file, n, t.text(n), RefRole::Write)
}

// ── Nothing else is defined ──────────────────────────────────────────────────

/// Whether node `i` is of a kind that declares symbols of the kind `kind`.
pub open spec fn declares(t: Syntax, i: int, kind: SymbolKind) -> bool {
    match kind {
        SymbolKind::Class => t.kind(i) == "class_declaration"@
            || t.kind(i) == "object_declaration"@ || t.kind(i) == "companion_object"@,
        SymbolKind::Interface => t.kind(i) == "class_declaration"@,
        SymbolKind::Enum => t.kind(i) == "class_declaration"@,
        SymbolKind::Function => t.kind(i) == "function_declaration"@,
        SymbolKind::Method => t.kind(i) == "function_declaration"@
            || t.kind(i) == "secondary_constructor"@,
        SymbolKind::Static => t.kind(i) == "property_declaration"@,
        SymbolKind::Const => t.kind(i) == "property_declaration"@ || t.kind(i) == "enum_entry"@,
        SymbolKind::TypeAlias => t.kind(i) == "type_alias"@,
        _ => false,
    }
}

/// The characters at which the signature of a symbol of the kind `kind` at node
/// `i` ends.
pub open spec fn stops_at(t: Syntax, i: int, kind: SymbolKind) -> Seq<char> {
    "{\n"@
}

/// Whether a symbol stands at a node that declares symbols of its kind, and has the
/// words of the node up to where it stops for a signature.
pub open spec fn is_declared_by(c: Ctx, s: SymbolView) -> bool {
    exists|i: int| #![trigger occurrence_at(c.tree, c.file, i)] s.occ == occurrence_at(
        c.tree,
        c.file,
        i,
    )
        && s.span == span_at(c.tree, i) && declares(c.tree, i, s.kind)
        && s.signature == one_line(c.tree.text(i), stops_at(c.tree, i, s.kind))
}

/// Whether all symbols do.
pub open spec fn all_declared(c: Ctx, symbols: Seq<SymbolView>) -> bool {
    forall|k: int| 0 <= k < symbols.len() ==> is_declared_by(c, #[trigger] symbols[k])
}

proof fn decls_at_declared(c: Ctx, prefix: Seq<DescriptorView>, inside: bool, i: int)
    ensures
        all_declared(c, decls_at(c, prefix, inside, i)),
    decreases c.tree.left(i), 1nat,
{
    let t = c.tree;
    let kind = t.kind(i);
    if t.has(i) {
        if kind == "class_declaration"@ || kind == "object_declaration"@
            || kind == "companion_object"@ {
            if let Some((type_kind, name)) = declared_type(t, i) {
                let leaf = DescriptorView::Type(name);
                bodies_in_declared(c, prefix + seq![leaf], i + 1, t.after(i));
            }
        }
    }
}

proof fn bodies_in_declared(c: Ctx, prefix: Seq<DescriptorView>, lo: int, hi: int)
    ensures
        all_declared(c, bodies_in(c, prefix, lo, hi)),
    decreases c.tree.left(lo), 0nat,
{
    if lo < hi && c.tree.has(lo) {
        if is_type_body(c.tree, lo) {
            definitions_declared(c, prefix, true, lo + 1, c.tree.after(lo));
        }
        bodies_in_declared(c, prefix, c.tree.next(lo, hi), hi);
    }
}

proof fn definitions_declared(c: Ctx, prefix: Seq<DescriptorView>, inside: bool, lo: int, hi: int)
    ensures
        all_declared(c, decls_in(c, prefix, inside, lo, hi)),
    decreases c.tree.left(lo), 2nat,
{
    if lo < hi && c.tree.has(lo) {
        decls_at_declared(c, prefix, inside, lo);
        definitions_declared(c, prefix, inside, c.tree.next(lo, hi), hi);
    }
}

/// Each definition of a file, but for that of its module, stands at a node that
/// declares symbols of its kind. Its signature is the text of the node on one
/// line, up to where it stops.
pub proof fn definitions_stand_at_declarations(
    t: Syntax,
    file: Seq<char>,
    found: Seq<Seq<CaptureView>>,
    on_self: Seq<Seq<CaptureView>>,
    k: int,
) -> (i: int)
    requires
        0 <= k < facts_of(t, file, found, on_self).symbols.len() - 1,
    ensures
        declares(t, i, facts_of(t, file, found, on_self).symbols[k].kind),
        is_at(facts_of(t, file, found, on_self).symbols[k].occ, file, t, i),
        facts_of(t, file, found, on_self).symbols[k].span.start == t.start(i) as usize,
        facts_of(t, file, found, on_self).symbols[k].span.end == t.end(i) as usize,
        facts_of(t, file, found, on_self).symbols[k].signature == one_line(
            t.text(i),
            stops_at(t, i, facts_of(t, file, found, on_self).symbols[k].kind),
        ),
{
    let c = context(t, file);
    let prefix = steps(t, file);
    let f = facts_of(t, file, found, on_self);
    definitions_declared(c, prefix, false, 1, t.after(0));
    let defs = decls_in(c, prefix, false, 1, t.after(0));
    assert(f.symbols[k] == defs[k]);
    assert(is_declared_by(c, defs[k]));
    choose|i: int| #![trigger occurrence_at(t, file, i)] defs[k].occ == occurrence_at(t, file, i)
        && defs[k].span == span_at(t, i) && declares(t, i, defs[k].kind)
        && defs[k].signature == one_line(t.text(i), stops_at(t, i, defs[k].kind))
}

// ── No other type is referred to ─────────────────────────────────────────────

/// Whether node `i` names a type, by the name `name`.
pub open spec fn names_type(t: Syntax, i: int, name: Seq<char>) -> bool {
    (t.kind(i) == "type_identifier"@ || t.kind(i) == "identifier"@ || t.kind(i) == "simple_identifier"@)
        && name == t.text(i)
}

/// Whether a reference is to a type that a node names, and says where it stands.
pub open spec fn is_of_type(t: Syntax, file: Seq<char>, r: ReferenceView) -> bool {
    &&& r.role == RefRole::TypeRef
    &&& r.type_ref_ctx is Some
    &&& exists|i: int| #![trigger occurrence_at(t, file, i)] r.occ == occurrence_at(t, file, i)
        && names_type(t, i, r.name)
}

/// Whether all references are.
pub open spec fn all_of_types(t: Syntax, file: Seq<char>, references: Seq<ReferenceView>) -> bool {
    forall|k: int| 0 <= k < references.len() ==> is_of_type(t, file, #[trigger] references[k])
}

proof fn simple_parts_in_typed(t: Syntax, file: Seq<char>, ctx: TypeRefContext, lo: int, hi: int)
    ensures
        all_of_types(t, file, simple_parts_in(t, file, ctx, lo, hi)),
    decreases t.left(lo), 1nat,
{
    if lo < hi && t.has(lo) {
        if t.named(lo) && t.kind(lo) != "type_identifier"@ && t.kind(lo) == "type_arguments"@ {
            leaves_at_typed(t, file, TypeRefContext::GenericArg, lo);
        }
        simple_parts_in_typed(t, file, ctx, t.next(lo, hi), hi);
    }
}

proof fn user_parts_in_typed(t: Syntax, file: Seq<char>, ctx: TypeRefContext, lo: int, hi: int)
    ensures
        all_of_types(t, file, user_parts_in(t, file, ctx, lo, hi)),
    decreases t.left(lo), 1nat,
{
    if lo < hi && t.has(lo) {
        if t.named(lo) {
            if t.kind(lo) == "simple_user_type"@ {
                simple_parts_in_typed(t, file, ctx, lo + 1, t.after(lo));
            } else if !(t.kind(lo) == "type_identifier"@ || t.kind(lo) == "identifier"@) {
                if t.kind(lo) == "type_arguments"@ {
                    leaves_at_typed(t, file, TypeRefContext::GenericArg, lo);
                }
            }
        }
        user_parts_in_typed(t, file, ctx, t.next(lo, hi), hi);
    }
}

proof fn leaves_at_typed(t: Syntax, file: Seq<char>, ctx: TypeRefContext, i: int)
    ensures
        all_of_types(t, file, leaves_at(t, file, ctx, i)),
    decreases t.left(i), 0nat,
{
    let kind = t.kind(i);
    if t.has(i) && kind != "type_identifier"@ {
        if kind == "user_type"@ {
            user_parts_in_typed(t, file, ctx, i + 1, t.after(i));
        } else if kind == "type_arguments"@ {
            leaves_in_typed(t, file, TypeRefContext::GenericArg, i + 1, t.after(i));
        } else {
            leaves_in_typed(t, file, ctx, i + 1, t.after(i));
        }
    }
}

proof fn leaves_in_typed(t: Syntax, file: Seq<char>, ctx: TypeRefContext, lo: int, hi: int)
    ensures
        all_of_types(t, file, leaves_in(t, file, ctx, lo, hi)),
    decreases t.left(lo), 1nat,
{
    if lo < hi && t.has(lo) {
        if t.named(lo) {
            leaves_at_typed(t, file, ctx, lo);
        }
        leaves_in_typed(t, file, ctx, t.next(lo, hi), hi);
    }
}

proof fn typed_refs_typed(t: Syntax, file: Seq<char>, ctx: TypeRefContext, i: int)
    ensures
        all_of_types(t, file, typed_refs(t, file, ctx, i)),
{
    if let Some(ty) = type_in(t, i + 1, t.after(i)) {
        leaves_at_typed(t, file, ctx, ty);
    }
}

proof fn type_refs_at_typed(t: Syntax, file: Seq<char>, i: int)
    ensures
        all_of_types(t, file, type_refs_at(t, file, i)),
    decreases t.left(i), 0nat,
{
    let kind = t.kind(i);
    if t.has(i) {
        if kind == "parameter"@ || kind == "class_parameter"@ {
            typed_refs_typed(t, file, TypeRefContext::ParameterType, i);
            untyped_parts_in_typed(t, file, i + 1, t.after(i));
        } else if kind == "function_declaration"@ {
            function_parts_in_typed(t, file, i + 1, t.after(i), false);
        } else if kind == "variable_declaration"@ {
            typed_refs_typed(t, file, TypeRefContext::Field, i);
        } else {
            type_refs_in_typed(t, file, i + 1, t.after(i));
        }
    }
}

proof fn function_parts_in_typed(t: Syntax, file: Seq<char>, lo: int, hi: int, past_params: bool)
    ensures
        all_of_types(t, file, function_parts_in(t, file, lo, hi, past_params)),
    decreases t.left(lo), 2nat,
{
    if lo < hi && t.has(lo) {
        if !t.named(lo) {
            function_parts_in_typed(t, file, t.next(lo, hi), hi, past_params);
        } else if t.kind(lo) == "function_value_parameters"@ {
            named_type_refs_in_typed(t, file, lo + 1, t.after(lo));
            function_parts_in_typed(t, file, t.next(lo, hi), hi, true);
        } else if is_type_shape(t, lo) {
            if past_params {
                leaves_at_typed(t, file, TypeRefContext::ReturnType, lo);
            }
            function_parts_in_typed(t, file, t.next(lo, hi), hi, past_params);
        } else {
            type_refs_at_typed(t, file, lo);
            function_parts_in_typed(t, file, t.next(lo, hi), hi, past_params);
        }
    }
}

proof fn type_refs_in_typed(t: Syntax, file: Seq<char>, lo: int, hi: int)
    ensures
        all_of_types(t, file, type_refs_in(t, file, lo, hi)),
    decreases t.left(lo), 1nat,
{
    if lo < hi && t.has(lo) {
        type_refs_at_typed(t, file, lo);
        type_refs_in_typed(t, file, t.next(lo, hi), hi);
    }
}

proof fn named_type_refs_in_typed(t: Syntax, file: Seq<char>, lo: int, hi: int)
    ensures
        all_of_types(t, file, named_type_refs_in(t, file, lo, hi)),
    decreases t.left(lo), 1nat,
{
    if lo < hi && t.has(lo) {
        if t.named(lo) {
            type_refs_at_typed(t, file, lo);
        }
        named_type_refs_in_typed(t, file, t.next(lo, hi), hi);
    }
}

proof fn untyped_parts_in_typed(t: Syntax, file: Seq<char>, lo: int, hi: int)
    ensures
        all_of_types(t, file, untyped_parts_in(t, file, lo, hi)),
    decreases t.left(lo), 1nat,
{
    if lo < hi && t.has(lo) {
        if !is_type_shape(t, lo) {
            type_refs_at_typed(t, file, lo);
        }
        untyped_parts_in_typed(t, file, t.next(lo, hi), hi);
    }
}

/// Each type reference of a file stands at a node that names a type.
pub proof fn type_references_name_types(t: Syntax, file: Seq<char>, k: int) -> (i: int)
    requires
        0 <= k < type_refs_at(t, file, 0).len(),
    ensures
        type_refs_at(t, file, 0)[k].role == RefRole::TypeRef,
        type_refs_at(t, file, 0)[k].type_ref_ctx is Some,
        is_at(type_refs_at(t, file, 0)[k].occ, file, t, i),
        names_type(t, i, type_refs_at(t, file, 0)[k].name),
{
    type_refs_at_typed(t, file, 0);
    let r = type_refs_at(t, file, 0)[k];
    assert(is_of_type(t, file, r));
    choose|i: int| #![trigger occurrence_at(t, file, i)] r.occ == occurrence_at(t, file, i)
        && names_type(t, i, r.name)
}

// ── All names and places ─────────────────────────────────────────────────────

/// The facts of a file name the file and its language.
pub proof fn facts_name_their_file(
    t: Syntax,
    file: Seq<char>,
    found: Seq<Seq<CaptureView>>,
    on_self: Seq<Seq<CaptureView>>,
)
    ensures
        facts_of(t, file, found, on_self).file == file,
        facts_of(t, file, found, on_self).lang == Language::Kotlin.tag(),
{
}

/// Each reference has the last scope of the file that holds its place.
pub proof fn references_have_innermost_scopes(
    t: Syntax,
    file: Seq<char>,
    found: Seq<Seq<CaptureView>>,
    on_self: Seq<Seq<CaptureView>>,
    k: int,
)
    requires
        0 <= k < facts_of(t, file, found, on_self).references.len(),
        facts_of(t, file, found, on_self).scopes.len() <= usize::MAX,
    ensures
        is_scoped(
            facts_of(t, file, found, on_self).scopes,
            facts_of(t, file, found, on_self).references[k],
        ),
{
    place_is_scoped(
        facts_of(t, file, found, on_self).scopes,
        facts_of(t, file, found, on_self).references[k],
    );
}

/// Each definition of a file, but for that of its module, is bound in the scope
/// of the file as a whole.
pub proof fn definitions_are_bound(
    t: Syntax,
    file: Seq<char>,
    found: Seq<Seq<CaptureView>>,
    on_self: Seq<Seq<CaptureView>>,
    k: int,
)
    requires
        0 <= k < facts_of(t, file, found, on_self).symbols.len() - 1,
    ensures
        binds_definition(
            facts_of(t, file, found, on_self),
            facts_of(t, file, found, on_self).symbols[k],
        ),
{
    let f = facts_of(t, file, found, on_self);
    let locals = bindings_at(t, f.scopes, 0);
    let c = context(t, file);
    let prefix = steps(t, file);
    let defs = decls_in(c, prefix, false, 1, t.after(0));
    let imported: Seq<BindingView> = imports_bound(f.scopes, f.references);
    assert(f.bindings =~= locals + definitions_bound(defs) + imported);
    assert(f.symbols[k] == defs[k]);
    definition_is_bound(f, locals, defs, imported, k);
}

/// Each import of a file is bound in the innermost scope at its place.
pub proof fn imports_are_bound(
    t: Syntax,
    file: Seq<char>,
    found: Seq<Seq<CaptureView>>,
    on_self: Seq<Seq<CaptureView>>,
    k: int,
)
    requires
        0 <= k < facts_of(t, file, found, on_self).references.len(),
        facts_of(t, file, found, on_self).references[k].role == RefRole::Import,
        facts_of(t, file, found, on_self).scopes.len() <= usize::MAX,
    ensures
        binds_import(
            facts_of(t, file, found, on_self),
            facts_of(t, file, found, on_self).references[k],
        ),
{
    let f = facts_of(t, file, found, on_self);
    let locals = bindings_at(t, f.scopes, 0);
    let c = context(t, file);
    let prefix = steps(t, file);
    let defs = decls_in(c, prefix, false, 1, t.after(0));
    imported_is_bound(f, locals, defs, k);
}

/// Each name that a file binds is that of a definition or of an import of the
/// file, or is bound to itself in the innermost scope at its place.
pub proof fn bindings_have_origins(
    t: Syntax,
    file: Seq<char>,
    found: Seq<Seq<CaptureView>>,
    on_self: Seq<Seq<CaptureView>>,
    k: int,
)
    requires
        0 <= k < facts_of(t, file, found, on_self).bindings.len(),
        facts_of(t, file, found, on_self).scopes.len() <= usize::MAX,
    ensures
        has_origin(
            facts_of(t, file, found, on_self),
            facts_of(t, file, found, on_self).bindings[k],
        ),
{
    let f = facts_of(t, file, found, on_self);
    let locals = bindings_at(t, f.scopes, 0);
    let c = context(t, file);
    let prefix = steps(t, file);
    let defs = decls_in(c, prefix, false, 1, t.after(0));
    let imported: Seq<BindingView> = imports_bound(f.scopes, f.references);
    assert(f.bindings =~= locals + definitions_bound(defs) + imported);
    locals_are_nested(t, f.scopes, 0);
    bound_has_origin(f, locals, defs, imported, k);
}

// ── Calls ────────────────────────────────────────────────────────────────────

/// Each match with a callee that is long enough and a qualifier is a call with
/// that qualifier, unless it is one on the object itself.
pub proof fn calls_are_reported(
    t: Syntax,
    file: Seq<char>,
    found: Seq<Seq<CaptureView>>,
    on_self: Seq<Seq<CaptureView>>,
    k: int,
    c: CaptureView,
    q: CaptureView,
)
    requires
        0 <= k < found.len(),
        captures(found[k], "callee"@, c),
        long_enough(text_between(t.source, c.start, c.end)),
        captures(found[k], "qualifier"@, q),
        !calls_at(on_self, c.start),
    ensures
        calls_name(
            facts_of(t, file, found, on_self),
            c,
            text_between(t.source, c.start, c.end),
            Some(text_between(t.source, q.start, q.end)),
            false,
        ),
{
    call_is_found(t.source, file, found, k, c);
    let plain = plain_call(t.source, file, found[k]);
    mark_is_found(on_self, c.start);
    marked_call_is_found(t.source, file, found, on_self, plain);
    let r = self_marked(on_self, plain);
    in_either(calls_marked(t.source, file, found, on_self), inherits_at(t, file, 0), r);
    in_either(
        calls_marked(t.source, file, found, on_self) + inherits_at(t, file, 0),
        imports_at(t, file, own_module(t, file), 0),
        r,
    );
    in_either(
        calls_marked(t.source, file, found, on_self) + inherits_at(t, file, 0)
            + imports_at(t, file, own_module(t, file), 0),
        type_refs_at(t, file, 0),
        r,
    );
    in_either(
        calls_marked(t.source, file, found, on_self) + inherits_at(t, file, 0)
            + imports_at(t, file, own_module(t, file), 0) + type_refs_at(t, file, 0),
        reads_at(t, file, 0),
        r,
    );
    in_either(
        calls_marked(t.source, file, found, on_self) + inherits_at(t, file, 0)
            + imports_at(t, file, own_module(t, file), 0) + type_refs_at(t, file, 0)
            + reads_at(t, file, 0),
        writes_at(t, file, 0),
        r,
    );
    is_reported(
        facts_of(t, file, found, on_self),
        references_of(t, file, own_module(t, file), found, on_self),
        r,
    );
}

/// Each match with a callee that is long enough and without a qualifier is a
/// call without one.
pub proof fn plain_calls_are_reported(
    t: Syntax,
    file: Seq<char>,
    found: Seq<Seq<CaptureView>>,
    on_self: Seq<Seq<CaptureView>>,
    k: int,
    c: CaptureView,
)
    requires
        0 <= k < found.len(),
        captures(found[k], "callee"@, c),
        long_enough(text_between(t.source, c.start, c.end)),
        lacks(found[k], "qualifier"@),
        !calls_at(on_self, c.start),
    ensures
        calls_name(
            facts_of(t, file, found, on_self),
            c,
            text_between(t.source, c.start, c.end),
            None,
            false,
        ),
{
    call_is_found(t.source, file, found, k, c);
    let plain = plain_call(t.source, file, found[k]);
    mark_is_found(on_self, c.start);
    marked_call_is_found(t.source, file, found, on_self, plain);
    let r = self_marked(on_self, plain);
    in_either(calls_marked(t.source, file, found, on_self), inherits_at(t, file, 0), r);
    in_either(
        calls_marked(t.source, file, found, on_self) + inherits_at(t, file, 0),
        imports_at(t, file, own_module(t, file), 0),
        r,
    );
    in_either(
        calls_marked(t.source, file, found, on_self) + inherits_at(t, file, 0)
            + imports_at(t, file, own_module(t, file), 0),
        type_refs_at(t, file, 0),
        r,
    );
    in_either(
        calls_marked(t.source, file, found, on_self) + inherits_at(t, file, 0)
            + imports_at(t, file, own_module(t, file), 0) + type_refs_at(t, file, 0),
        reads_at(t, file, 0),
        r,
    );
    in_either(
        calls_marked(t.source, file, found, on_self) + inherits_at(t, file, 0)
            + imports_at(t, file, own_module(t, file), 0) + type_refs_at(t, file, 0)
            + reads_at(t, file, 0),
        writes_at(t, file, 0),
        r,
    );
    is_reported(
        facts_of(t, file, found, on_self),
        references_of(t, file, own_module(t, file), found, on_self),
        r,
    );
}

/// A call that the query on calls on the object itself reports at its place is
/// marked as one, without a qualifier.
pub proof fn calls_on_itself_are_marked(
    t: Syntax,
    file: Seq<char>,
    found: Seq<Seq<CaptureView>>,
    on_self: Seq<Seq<CaptureView>>,
    k: int,
    c: CaptureView,
)
    requires
        0 <= k < found.len(),
        captures(found[k], "callee"@, c),
        long_enough(text_between(t.source, c.start, c.end)),
        calls_at(on_self, c.start),
    ensures
        calls_name(
            facts_of(t, file, found, on_self),
            c,
            text_between(t.source, c.start, c.end),
            None,
            true,
        ),
{
    call_is_found(t.source, file, found, k, c);
    let plain = plain_call(t.source, file, found[k]);
    mark_is_found(on_self, c.start);
    marked_call_is_found(t.source, file, found, on_self, plain);
    let r = self_marked(on_self, plain);
    in_either(calls_marked(t.source, file, found, on_self), inherits_at(t, file, 0), r);
    in_either(
        calls_marked(t.source, file, found, on_self) + inherits_at(t, file, 0),
        imports_at(t, file, own_module(t, file), 0),
        r,
    );
    in_either(
        calls_marked(t.source, file, found, on_self) + inherits_at(t, file, 0)
            + imports_at(t, file, own_module(t, file), 0),
        type_refs_at(t, file, 0),
        r,
    );
    in_either(
        calls_marked(t.source, file, found, on_self) + inherits_at(t, file, 0)
            + imports_at(t, file, own_module(t, file), 0) + type_refs_at(t, file, 0),
        reads_at(t, file, 0),
        r,
    );
    in_either(
        calls_marked(t.source, file, found, on_self) + inherits_at(t, file, 0)
            + imports_at(t, file, own_module(t, file), 0) + type_refs_at(t, file, 0)
            + reads_at(t, file, 0),
        writes_at(t, file, 0),
        r,
    );
    is_reported(
        facts_of(t, file, found, on_self),
        references_of(t, file, own_module(t, file), found, on_self),
        r,
    );
}

} // verus!
