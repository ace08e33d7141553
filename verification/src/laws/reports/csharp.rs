//! What the facts of C# files tell of their nodes.

use crate::extract::csharp::{
    base_of, bases_in, bindings_at, bindings_in, bindings_in_document_order, bindings_of_nodes,
    constant_symbols, declarator_type, declarators_in, declared_in, declared_namespace,
    facts_of, field_symbols, field_types_in, fields_in, import_of, imports_at,
    imports_in_document_order, imports_of_nodes, inherits_at, inherits_in_document_order,
    inherits_of_nodes, introduced, leaves_at, leaves_in, listed_bases, local_at, locals_in,
    member_visibility, members_in, method_symbols, modified, modifier_in, namespaces_of,
    not_read, own_type_refs, param_at, params_in, read_of, reads_at, reads_in_document_order,
    reads_of_nodes, references_of, scopes_with, scopes_with_all, type_at, type_kind,
    type_refs_at, type_refs_in, type_refs_in_document_order, type_refs_of_nodes, typed_refs,
    types_in, used_name_in, visibility_at, write_of, writes_at, writes_in_document_order,
    writes_of_nodes, written_type,
};
use crate::extract::{
    Ctx, at_file_level, calls_marked, definitions_bound, extends, imports_bound, local_binding,
    module_scope, module_view, occurrence_at, reference_at, self_marked, span_at,
    type_reference_at,
};
use crate::graph::types::{
    BindingKind, BindingView, EntryPointView, RefRole, ReferenceView, Scope, ScopeId, ScopeKind,
    SymbolKind, SymbolView, TypeRefContext, Visibility,
};
use crate::items::{in_order_all, in_order_each};
use crate::lang::Language;
use crate::laws::csharp::{
    definitions_belong, is_defined, is_read, locals_are_nested, reads_are_sound,
};
use crate::laws::{belongs, identifiers_apart};
use crate::parse::CaptureView;
use crate::symbol::{DescriptorView, namespace_steps, scip_text};
use crate::syntax::{Syntax, field_is_child, group_child_bounds};
use crate::text::{
    after_last, before_last, byte_count, has_prefix, one_line, own_suffix, segments,
    simple_name, text_between, without_prefix, without_suffix,
};
use super::bound::{
    binds_definition, binds_import, bound_has_origin, definition_is_bound, has_origin,
    imported_is_bound, is_scoped, place_is_scoped,
};
use super::calls::{
    call_is_found, calls_at, calls_name, captures, lacks, mark_is_found, marked_call_is_found,
    plain_call,
};
use super::texts::{are_parts, join, joined_comes_apart, prefix_comes_off};
use super::{
    binds, binds_as, child_stands_in_field, defines, defines_as, defines_in,
    earlier_ends_before, extends_module, file_level_is_outside, imports, in_either, is_at,
    is_entered, is_module, is_reported, last_index_tells, local_is_bound, long_enough,
    opens_scope, opens_scope_stays, outside_code, reached_is_behind, refers, refers_to_type,
    reported, scope_is_within, starts_with,
};
use vstd::prelude::*;

verus! {

broadcast use group_child_bounds;

/// The text of the module of a file.
spec fn own_module(t: Syntax, file: Seq<char>) -> Seq<char> {
    scip_text(
        module_view(Language::CSharp, namespaces_of(t, file), file, byte_count(t.source) as int).id,
    )
}

/// What the definitions of a file are read from.
spec fn context(t: Syntax, file: Seq<char>) -> Ctx {
    Ctx { tree: t, file, lang: Language::CSharp }
}

/// The steps that lead to the definitions of a file.
spec fn steps(t: Syntax, file: Seq<char>) -> Seq<DescriptorView> {
    namespace_steps(namespaces_of(t, file))
}

proof fn types_in_kinds()
    ensures
        "class_declaration"@ != "namespace_declaration"@,
        "class_declaration"@ != "file_scoped_namespace_declaration"@,
        "record_declaration"@ != "namespace_declaration"@,
        "record_declaration"@ != "file_scoped_namespace_declaration"@,
        "struct_declaration"@ != "namespace_declaration"@,
        "struct_declaration"@ != "file_scoped_namespace_declaration"@,
        "interface_declaration"@ != "namespace_declaration"@,
        "interface_declaration"@ != "file_scoped_namespace_declaration"@,
        "enum_declaration"@ != "namespace_declaration"@,
        "enum_declaration"@ != "file_scoped_namespace_declaration"@,
{
    reveal_strlit("class_declaration");
    reveal_strlit("namespace_declaration");
    reveal_strlit("file_scoped_namespace_declaration");
    reveal_strlit("record_declaration");
    reveal_strlit("struct_declaration");
    reveal_strlit("interface_declaration");
    reveal_strlit("enum_declaration");
    assert("class_declaration"@.len() != "namespace_declaration"@.len());
    assert("class_declaration"@.len() != "file_scoped_namespace_declaration"@.len());
    assert("record_declaration"@.len() != "namespace_declaration"@.len());
    assert("record_declaration"@.len() != "file_scoped_namespace_declaration"@.len());
    assert("struct_declaration"@.len() != "namespace_declaration"@.len());
    assert("struct_declaration"@.len() != "file_scoped_namespace_declaration"@.len());
    assert("interface_declaration"@[0] != "namespace_declaration"@[0]);
    assert("interface_declaration"@.len() != "file_scoped_namespace_declaration"@.len());
    assert("enum_declaration"@.len() != "namespace_declaration"@.len());
    assert("enum_declaration"@.len() != "file_scoped_namespace_declaration"@.len());
}

proof fn members_in_kinds()
    ensures
        "class_declaration"@ != "method_declaration"@,
        "class_declaration"@ != "constructor_declaration"@,
        "class_declaration"@ != "property_declaration"@,
        "class_declaration"@ != "field_declaration"@,
        "class_declaration"@ != "enum_member_declaration"@,
        "record_declaration"@ != "method_declaration"@,
        "record_declaration"@ != "constructor_declaration"@,
        "record_declaration"@ != "property_declaration"@,
        "record_declaration"@ != "field_declaration"@,
        "record_declaration"@ != "enum_member_declaration"@,
        "struct_declaration"@ != "method_declaration"@,
        "struct_declaration"@ != "constructor_declaration"@,
        "struct_declaration"@ != "property_declaration"@,
        "struct_declaration"@ != "field_declaration"@,
        "struct_declaration"@ != "enum_member_declaration"@,
        "interface_declaration"@ != "method_declaration"@,
        "interface_declaration"@ != "constructor_declaration"@,
        "interface_declaration"@ != "property_declaration"@,
        "interface_declaration"@ != "field_declaration"@,
        "interface_declaration"@ != "enum_member_declaration"@,
        "enum_declaration"@ != "method_declaration"@,
        "enum_declaration"@ != "constructor_declaration"@,
        "enum_declaration"@ != "property_declaration"@,
        "enum_declaration"@ != "field_declaration"@,
        "enum_declaration"@ != "enum_member_declaration"@,
        "method_declaration"@ != "constructor_declaration"@,
        "method_declaration"@ != "property_declaration"@,
        "method_declaration"@ != "field_declaration"@,
        "method_declaration"@ != "enum_member_declaration"@,
        "constructor_declaration"@ != "property_declaration"@,
        "constructor_declaration"@ != "field_declaration"@,
        "constructor_declaration"@ != "enum_member_declaration"@,
        "property_declaration"@ != "field_declaration"@,
        "property_declaration"@ != "enum_member_declaration"@,
        "enum_member_declaration"@ != "field_declaration"@,
{
    reveal_strlit("class_declaration");
    reveal_strlit("method_declaration");
    reveal_strlit("constructor_declaration");
    reveal_strlit("property_declaration");
    reveal_strlit("field_declaration");
    reveal_strlit("enum_member_declaration");
    reveal_strlit("record_declaration");
    reveal_strlit("struct_declaration");
    reveal_strlit("interface_declaration");
    reveal_strlit("enum_declaration");
    assert("class_declaration"@.len() != "method_declaration"@.len());
    assert("class_declaration"@.len() != "constructor_declaration"@.len());
    assert("class_declaration"@.len() != "property_declaration"@.len());
    assert("class_declaration"@[0] != "field_declaration"@[0]);
    assert("class_declaration"@.len() != "enum_member_declaration"@.len());
    assert("record_declaration"@[0] != "method_declaration"@[0]);
    assert("record_declaration"@.len() != "constructor_declaration"@.len());
    assert("record_declaration"@.len() != "property_declaration"@.len());
    assert("record_declaration"@.len() != "field_declaration"@.len());
    assert("record_declaration"@.len() != "enum_member_declaration"@.len());
    assert("struct_declaration"@[0] != "method_declaration"@[0]);
    assert("struct_declaration"@.len() != "constructor_declaration"@.len());
    assert("struct_declaration"@.len() != "property_declaration"@.len());
    assert("struct_declaration"@.len() != "field_declaration"@.len());
    assert("struct_declaration"@.len() != "enum_member_declaration"@.len());
    assert("interface_declaration"@.len() != "method_declaration"@.len());
    assert("interface_declaration"@.len() != "constructor_declaration"@.len());
    assert("interface_declaration"@.len() != "property_declaration"@.len());
    assert("interface_declaration"@.len() != "field_declaration"@.len());
    assert("interface_declaration"@.len() != "enum_member_declaration"@.len());
    assert("enum_declaration"@.len() != "method_declaration"@.len());
    assert("enum_declaration"@.len() != "constructor_declaration"@.len());
    assert("enum_declaration"@.len() != "property_declaration"@.len());
    assert("enum_declaration"@.len() != "field_declaration"@.len());
    assert("enum_declaration"@.len() != "enum_member_declaration"@.len());
    assert("method_declaration"@.len() != "constructor_declaration"@.len());
    assert("method_declaration"@.len() != "property_declaration"@.len());
    assert("method_declaration"@.len() != "field_declaration"@.len());
    assert("method_declaration"@.len() != "enum_member_declaration"@.len());
    assert("constructor_declaration"@.len() != "property_declaration"@.len());
    assert("constructor_declaration"@.len() != "field_declaration"@.len());
    assert("constructor_declaration"@[0] != "enum_member_declaration"@[0]);
    assert("property_declaration"@.len() != "field_declaration"@.len());
    assert("property_declaration"@.len() != "enum_member_declaration"@.len());
    assert("enum_member_declaration"@.len() != "field_declaration"@.len());
}

proof fn type_kind_kinds()
    ensures
        "class_declaration"@ != "record_declaration"@,
        "class_declaration"@ != "struct_declaration"@,
        "class_declaration"@ != "interface_declaration"@,
        "class_declaration"@ != "enum_declaration"@,
        "record_declaration"@ != "struct_declaration"@,
        "record_declaration"@ != "interface_declaration"@,
        "record_declaration"@ != "enum_declaration"@,
        "struct_declaration"@ != "interface_declaration"@,
        "struct_declaration"@ != "enum_declaration"@,
        "interface_declaration"@ != "enum_declaration"@,
{
    reveal_strlit("class_declaration");
    reveal_strlit("record_declaration");
    reveal_strlit("struct_declaration");
    reveal_strlit("interface_declaration");
    reveal_strlit("enum_declaration");
    assert("class_declaration"@.len() != "record_declaration"@.len());
    assert("class_declaration"@.len() != "struct_declaration"@.len());
    assert("class_declaration"@.len() != "interface_declaration"@.len());
    assert("class_declaration"@.len() != "enum_declaration"@.len());
    assert("record_declaration"@[0] != "struct_declaration"@[0]);
    assert("record_declaration"@.len() != "interface_declaration"@.len());
    assert("record_declaration"@.len() != "enum_declaration"@.len());
    assert("struct_declaration"@.len() != "interface_declaration"@.len());
    assert("struct_declaration"@.len() != "enum_declaration"@.len());
    assert("interface_declaration"@.len() != "enum_declaration"@.len());
}

proof fn base_of_kinds()
    ensures
        "identifier"@ != "qualified_name"@,
        "identifier"@ != "generic_name"@,
        "qualified_name"@ != "generic_name"@,
{
    reveal_strlit("identifier");
    reveal_strlit("qualified_name");
    reveal_strlit("generic_name");
    assert("identifier"@.len() != "qualified_name"@.len());
    assert("identifier"@.len() != "generic_name"@.len());
    assert("qualified_name"@.len() != "generic_name"@.len());
}

proof fn leaves_at_kinds()
    ensures
        "identifier"@ != "predefined_type"@,
        "identifier"@ != "void_keyword"@,
        "identifier"@ != "qualified_name"@,
        "identifier"@ != "generic_name"@,
        "identifier"@ != "nullable_type"@,
        "identifier"@ != "array_type"@,
        "qualified_name"@ != "predefined_type"@,
        "qualified_name"@ != "void_keyword"@,
        "qualified_name"@ != "generic_name"@,
        "qualified_name"@ != "nullable_type"@,
        "qualified_name"@ != "array_type"@,
        "generic_name"@ != "predefined_type"@,
        "generic_name"@ != "void_keyword"@,
        "generic_name"@ != "nullable_type"@,
        "generic_name"@ != "array_type"@,
        "nullable_type"@ != "predefined_type"@,
        "nullable_type"@ != "void_keyword"@,
        "nullable_type"@ != "array_type"@,
        "array_type"@ != "predefined_type"@,
        "array_type"@ != "void_keyword"@,
{
    reveal_strlit("identifier");
    reveal_strlit("predefined_type");
    reveal_strlit("void_keyword");
    reveal_strlit("qualified_name");
    reveal_strlit("generic_name");
    reveal_strlit("nullable_type");
    reveal_strlit("array_type");
    assert("identifier"@.len() != "predefined_type"@.len());
    assert("identifier"@.len() != "void_keyword"@.len());
    assert("identifier"@.len() != "qualified_name"@.len());
    assert("identifier"@.len() != "generic_name"@.len());
    assert("identifier"@.len() != "nullable_type"@.len());
    assert("identifier"@[0] != "array_type"@[0]);
    assert("qualified_name"@.len() != "predefined_type"@.len());
    assert("qualified_name"@.len() != "void_keyword"@.len());
    assert("qualified_name"@.len() != "generic_name"@.len());
    assert("qualified_name"@.len() != "nullable_type"@.len());
    assert("qualified_name"@.len() != "array_type"@.len());
    assert("generic_name"@.len() != "predefined_type"@.len());
    assert("generic_name"@[0] != "void_keyword"@[0]);
    assert("generic_name"@.len() != "nullable_type"@.len());
    assert("generic_name"@.len() != "array_type"@.len());
    assert("nullable_type"@.len() != "predefined_type"@.len());
    assert("nullable_type"@.len() != "void_keyword"@.len());
    assert("nullable_type"@.len() != "array_type"@.len());
    assert("array_type"@.len() != "predefined_type"@.len());
    assert("array_type"@.len() != "void_keyword"@.len());
}

proof fn own_type_refs_kinds()
    ensures
        "method_declaration"@ != "parameter"@,
        "method_declaration"@ != "field_declaration"@,
        "method_declaration"@ != "property_declaration"@,
        "parameter"@ != "field_declaration"@,
        "parameter"@ != "property_declaration"@,
        "property_declaration"@ != "field_declaration"@,
{
    reveal_strlit("method_declaration");
    reveal_strlit("parameter");
    reveal_strlit("field_declaration");
    reveal_strlit("property_declaration");
    assert("method_declaration"@.len() != "parameter"@.len());
    assert("method_declaration"@.len() != "field_declaration"@.len());
    assert("method_declaration"@.len() != "property_declaration"@.len());
    assert("parameter"@.len() != "field_declaration"@.len());
    assert("parameter"@.len() != "property_declaration"@.len());
    assert("property_declaration"@.len() != "field_declaration"@.len());
}

proof fn introduced_kinds()
    ensures
        "method_declaration"@ != "constructor_declaration"@,
        "method_declaration"@ != "local_declaration_statement"@,
        "method_declaration"@ != "foreach_statement"@,
        "method_declaration"@ != "identifier"@,
        "method_declaration"@ != "catch_clause"@,
        "constructor_declaration"@ != "local_declaration_statement"@,
        "constructor_declaration"@ != "foreach_statement"@,
        "constructor_declaration"@ != "identifier"@,
        "constructor_declaration"@ != "catch_clause"@,
        "local_declaration_statement"@ != "foreach_statement"@,
        "local_declaration_statement"@ != "identifier"@,
        "local_declaration_statement"@ != "catch_clause"@,
        "foreach_statement"@ != "identifier"@,
        "foreach_statement"@ != "catch_clause"@,
        "catch_clause"@ != "identifier"@,
{
    reveal_strlit("method_declaration");
    reveal_strlit("constructor_declaration");
    reveal_strlit("local_declaration_statement");
    reveal_strlit("foreach_statement");
    reveal_strlit("identifier");
    reveal_strlit("catch_clause");
    assert("method_declaration"@.len() != "constructor_declaration"@.len());
    assert("method_declaration"@.len() != "local_declaration_statement"@.len());
    assert("method_declaration"@.len() != "foreach_statement"@.len());
    assert("method_declaration"@.len() != "identifier"@.len());
    assert("method_declaration"@.len() != "catch_clause"@.len());
    assert("constructor_declaration"@.len() != "local_declaration_statement"@.len());
    assert("constructor_declaration"@.len() != "foreach_statement"@.len());
    assert("constructor_declaration"@.len() != "identifier"@.len());
    assert("constructor_declaration"@.len() != "catch_clause"@.len());
    assert("local_declaration_statement"@.len() != "foreach_statement"@.len());
    assert("local_declaration_statement"@.len() != "identifier"@.len());
    assert("local_declaration_statement"@.len() != "catch_clause"@.len());
    assert("foreach_statement"@.len() != "identifier"@.len());
    assert("foreach_statement"@.len() != "catch_clause"@.len());
    assert("catch_clause"@.len() != "identifier"@.len());
}

proof fn used_name_in_kinds()
    ensures
        "identifier"@ != "qualified_name"@,
{
    reveal_strlit("identifier");
    reveal_strlit("qualified_name");
    assert("identifier"@.len() != "qualified_name"@.len());
}

proof fn scopes_with_kinds()
    ensures
        "namespace_declaration"@ != "file_scoped_namespace_declaration"@,
        "namespace_declaration"@ != "class_declaration"@,
        "namespace_declaration"@ != "struct_declaration"@,
        "namespace_declaration"@ != "interface_declaration"@,
        "namespace_declaration"@ != "enum_declaration"@,
        "namespace_declaration"@ != "record_declaration"@,
        "namespace_declaration"@ != "method_declaration"@,
        "namespace_declaration"@ != "constructor_declaration"@,
        "namespace_declaration"@ != "block"@,
        "file_scoped_namespace_declaration"@ != "class_declaration"@,
        "file_scoped_namespace_declaration"@ != "struct_declaration"@,
        "file_scoped_namespace_declaration"@ != "interface_declaration"@,
        "file_scoped_namespace_declaration"@ != "enum_declaration"@,
        "file_scoped_namespace_declaration"@ != "record_declaration"@,
        "file_scoped_namespace_declaration"@ != "method_declaration"@,
        "file_scoped_namespace_declaration"@ != "constructor_declaration"@,
        "file_scoped_namespace_declaration"@ != "block"@,
        "class_declaration"@ != "struct_declaration"@,
        "class_declaration"@ != "interface_declaration"@,
        "class_declaration"@ != "enum_declaration"@,
        "class_declaration"@ != "record_declaration"@,
        "class_declaration"@ != "method_declaration"@,
        "class_declaration"@ != "constructor_declaration"@,
        "class_declaration"@ != "block"@,
        "struct_declaration"@ != "interface_declaration"@,
        "struct_declaration"@ != "enum_declaration"@,
        "struct_declaration"@ != "record_declaration"@,
        "struct_declaration"@ != "method_declaration"@,
        "struct_declaration"@ != "constructor_declaration"@,
        "struct_declaration"@ != "block"@,
        "interface_declaration"@ != "enum_declaration"@,
        "interface_declaration"@ != "record_declaration"@,
        "interface_declaration"@ != "method_declaration"@,
        "interface_declaration"@ != "constructor_declaration"@,
        "interface_declaration"@ != "block"@,
        "enum_declaration"@ != "record_declaration"@,
        "enum_declaration"@ != "method_declaration"@,
        "enum_declaration"@ != "constructor_declaration"@,
        "enum_declaration"@ != "block"@,
        "record_declaration"@ != "method_declaration"@,
        "record_declaration"@ != "constructor_declaration"@,
        "record_declaration"@ != "block"@,
        "method_declaration"@ != "constructor_declaration"@,
        "method_declaration"@ != "block"@,
        "constructor_declaration"@ != "block"@,
{
    reveal_strlit("namespace_declaration");
    reveal_strlit("file_scoped_namespace_declaration");
    reveal_strlit("class_declaration");
    reveal_strlit("struct_declaration");
    reveal_strlit("interface_declaration");
    reveal_strlit("enum_declaration");
    reveal_strlit("record_declaration");
    reveal_strlit("method_declaration");
    reveal_strlit("constructor_declaration");
    reveal_strlit("block");
    assert("namespace_declaration"@.len() != "file_scoped_namespace_declaration"@.len());
    assert("namespace_declaration"@.len() != "class_declaration"@.len());
    assert("namespace_declaration"@.len() != "struct_declaration"@.len());
    assert("namespace_declaration"@[0] != "interface_declaration"@[0]);
    assert("namespace_declaration"@.len() != "enum_declaration"@.len());
    assert("namespace_declaration"@.len() != "record_declaration"@.len());
    assert("namespace_declaration"@.len() != "method_declaration"@.len());
    assert("namespace_declaration"@.len() != "constructor_declaration"@.len());
    assert("namespace_declaration"@.len() != "block"@.len());
    assert("file_scoped_namespace_declaration"@.len() != "class_declaration"@.len());
    assert("file_scoped_namespace_declaration"@.len() != "struct_declaration"@.len());
    assert("file_scoped_namespace_declaration"@.len() != "interface_declaration"@.len());
    assert("file_scoped_namespace_declaration"@.len() != "enum_declaration"@.len());
    assert("file_scoped_namespace_declaration"@.len() != "record_declaration"@.len());
    assert("file_scoped_namespace_declaration"@.len() != "method_declaration"@.len());
    assert("file_scoped_namespace_declaration"@.len() != "constructor_declaration"@.len());
    assert("file_scoped_namespace_declaration"@.len() != "block"@.len());
    assert("class_declaration"@.len() != "struct_declaration"@.len());
    assert("class_declaration"@.len() != "interface_declaration"@.len());
    assert("class_declaration"@.len() != "enum_declaration"@.len());
    assert("class_declaration"@.len() != "record_declaration"@.len());
    assert("class_declaration"@.len() != "method_declaration"@.len());
    assert("class_declaration"@.len() != "constructor_declaration"@.len());
    assert("class_declaration"@.len() != "block"@.len());
    assert("struct_declaration"@.len() != "interface_declaration"@.len());
    assert("struct_declaration"@.len() != "enum_declaration"@.len());
    assert("struct_declaration"@[0] != "record_declaration"@[0]);
    assert("struct_declaration"@[0] != "method_declaration"@[0]);
    assert("struct_declaration"@.len() != "constructor_declaration"@.len());
    assert("struct_declaration"@.len() != "block"@.len());
    assert("interface_declaration"@.len() != "enum_declaration"@.len());
    assert("interface_declaration"@.len() != "record_declaration"@.len());
    assert("interface_declaration"@.len() != "method_declaration"@.len());
    assert("interface_declaration"@.len() != "constructor_declaration"@.len());
    assert("interface_declaration"@.len() != "block"@.len());
    assert("enum_declaration"@.len() != "record_declaration"@.len());
    assert("enum_declaration"@.len() != "method_declaration"@.len());
    assert("enum_declaration"@.len() != "constructor_declaration"@.len());
    assert("enum_declaration"@.len() != "block"@.len());
    assert("record_declaration"@[0] != "method_declaration"@[0]);
    assert("record_declaration"@.len() != "constructor_declaration"@.len());
    assert("record_declaration"@.len() != "block"@.len());
    assert("method_declaration"@.len() != "constructor_declaration"@.len());
    assert("method_declaration"@.len() != "block"@.len());
    assert("constructor_declaration"@.len() != "block"@.len());
}

proof fn inherits_reported(
    t: Syntax,
    file: Seq<char>,
    found: Seq<Seq<CaptureView>>,
    on_self: Seq<Seq<CaptureView>>,
    i: int,
    r: ReferenceView,
)
    requires
        t.nested(),
        0 <= i < t.after(0),
        listed_bases(t, file, i).contains(r),
    ensures
        reported(facts_of(t, file, found, on_self), r),
{
    inherits_in_document_order(t, file, 0);
    let k = choose|k: int| 0 <= k < listed_bases(t, file, i).len()
        && listed_bases(t, file, i)[k] == r;
    in_order_each(inherits_of_nodes(t, file), 0, t.after(0), i, k);
    assert(inherits_at(t, file, 0).contains(r));
    in_either(calls_marked(t.source, file, found, on_self), inherits_at(t, file, 0), r);
    in_either(
        calls_marked(t.source, file, found, on_self) + inherits_at(t, file, 0),
        imports_at(t, file, own_module(t, file), 0),
        r,
    );
    in_either(
        calls_marked(t.source, file, found, on_self) + inherits_at(t, file, 0)
            + imports_at(t, file, own_module(t, file), 0),
        type_refs_at(t, file, 0),
        r,
    );
    in_either(
        calls_marked(t.source, file, found, on_self) + inherits_at(t, file, 0)
            + imports_at(t, file, own_module(t, file), 0) + type_refs_at(t, file, 0),
        reads_at(t, file, 0),
        r,
    );
    in_either(
        calls_marked(t.source, file, found, on_self) + inherits_at(t, file, 0)
            + imports_at(t, file, own_module(t, file), 0) + type_refs_at(t, file, 0)
            + reads_at(t, file, 0),
        writes_at(t, file, 0),
        r,
    );
    is_reported(
        facts_of(t, file, found, on_self),
        references_of(t, file, own_module(t, file), found, on_self),
        r,
    );
}

proof fn imports_reported(
    t: Syntax,
    file: Seq<char>,
    found: Seq<Seq<CaptureView>>,
    on_self: Seq<Seq<CaptureView>>,
    i: int,
    r: ReferenceView,
)
    requires
        t.nested(),
        0 <= i < t.after(0),
        forall|j: int, k: int| t.has(j) && t.kind(j) == "using_directive"@
            && j < k < #[trigger] t.after(j)
            ==> #[trigger] t.kind(k) != "using_directive"@,
        import_of(t, file, own_module(t, file), i).contains(r),
    ensures
        reported(facts_of(t, file, found, on_self), r),
{
    imports_in_document_order(t, file, own_module(t, file), 0);
    let k = choose|k: int| 0 <= k < import_of(t, file, own_module(t, file), i).len()
        && import_of(t, file, own_module(t, file), i)[k] == r;
    in_order_each(imports_of_nodes(t, file, own_module(t, file)), 0, t.after(0), i, k);
    assert(imports_at(t, file, own_module(t, file), 0).contains(r));
    in_either(
        calls_marked(t.source, file, found, on_self) + inherits_at(t, file, 0),
        imports_at(t, file, own_module(t, file), 0),
        r,
    );
    in_either(
        calls_marked(t.source, file, found, on_self) + inherits_at(t, file, 0)
            + imports_at(t, file, own_module(t, file), 0),
        type_refs_at(t, file, 0),
        r,
    );
    in_either(
        calls_marked(t.source, file, found, on_self) + inherits_at(t, file, 0)
            + imports_at(t, file, own_module(t, file), 0) + type_refs_at(t, file, 0),
        reads_at(t, file, 0),
        r,
    );
    in_either(
        calls_marked(t.source, file, found, on_self) + inherits_at(t, file, 0)
            + imports_at(t, file, own_module(t, file), 0) + type_refs_at(t, file, 0)
            + reads_at(t, file, 0),
        writes_at(t, file, 0),
        r,
    );
    is_reported(
        facts_of(t, file, found, on_self),
        references_of(t, file, own_module(t, file), found, on_self),
        r,
    );
}

proof fn reads_reported(
    t: Syntax,
    file: Seq<char>,
    found: Seq<Seq<CaptureView>>,
    on_self: Seq<Seq<CaptureView>>,
    i: int,
    r: ReferenceView,
)
    requires
        t.nested(),
        0 <= i < t.after(0),
        forall|j: int, k: int| t.has(j) && t.kind(j) == "identifier"@
            && j < k < #[trigger] t.after(j)
            ==> #[trigger] t.kind(k) != "identifier"@,
        read_of(t, file, i).contains(r),
    ensures
        reported(facts_of(t, file, found, on_self), r),
{
    reads_in_document_order(t, file, 0);
    let k = choose|k: int| 0 <= k < read_of(t, file, i).len() && read_of(t, file, i)[k] == r;
    in_order_each(reads_of_nodes(t, file), 0, t.after(0), i, k);
    assert(reads_at(t, file, 0).contains(r));
    in_either(
        calls_marked(t.source, file, found, on_self) + inherits_at(t, file, 0)
            + imports_at(t, file, own_module(t, file), 0) + type_refs_at(t, file, 0),
        reads_at(t, file, 0),
        r,
    );
    in_either(
        calls_marked(t.source, file, found, on_self) + inherits_at(t, file, 0)
            + imports_at(t, file, own_module(t, file), 0) + type_refs_at(t, file, 0)
            + reads_at(t, file, 0),
        writes_at(t, file, 0),
        r,
    );
    is_reported(
        facts_of(t, file, found, on_self),
        references_of(t, file, own_module(t, file), found, on_self),
        r,
    );
}

proof fn writes_reported(
    t: Syntax,
    file: Seq<char>,
    found: Seq<Seq<CaptureView>>,
    on_self: Seq<Seq<CaptureView>>,
    i: int,
    r: ReferenceView,
)
    requires
        t.nested(),
        0 <= i < t.after(0),
        write_of(t, file, i).contains(r),
    ensures
        reported(facts_of(t, file, found, on_self), r),
{
    writes_in_document_order(t, file, 0);
    let k = choose|k: int| 0 <= k < write_of(t, file, i).len() && write_of(t, file, i)[k] == r;
    in_order_each(writes_of_nodes(t, file), 0, t.after(0), i, k);
    assert(writes_at(t, file, 0).contains(r));
    in_either(
        calls_marked(t.source, file, found, on_self) + inherits_at(t, file, 0)
            + imports_at(t, file, own_module(t, file), 0) + type_refs_at(t, file, 0)
            + reads_at(t, file, 0),
        writes_at(t, file, 0),
        r,
    );
    is_reported(
        facts_of(t, file, found, on_self),
        references_of(t, file, own_module(t, file), found, on_self),
        r,
    );
}

proof fn type_refs_reported(
    t: Syntax,
    file: Seq<char>,
    found: Seq<Seq<CaptureView>>,
    on_self: Seq<Seq<CaptureView>>,
    i: int,
    r: ReferenceView,
)
    requires
        t.nested(),
        0 <= i < t.after(0),
        own_type_refs(t, file, i).contains(r),
    ensures
        reported(facts_of(t, file, found, on_self), r),
{
    type_refs_in_document_order(t, file, 0);
    let k = choose|k: int| 0 <= k < own_type_refs(t, file, i).len()
        && own_type_refs(t, file, i)[k] == r;
    in_order_each(type_refs_of_nodes(t, file), 0, t.after(0), i, k);
    assert(type_refs_at(t, file, 0).contains(r));
    in_either(
        calls_marked(t.source, file, found, on_self) + inherits_at(t, file, 0)
            + imports_at(t, file, own_module(t, file), 0),
        type_refs_at(t, file, 0),
        r,
    );
    in_either(
        calls_marked(t.source, file, found, on_self) + inherits_at(t, file, 0)
            + imports_at(t, file, own_module(t, file), 0) + type_refs_at(t, file, 0),
        reads_at(t, file, 0),
        r,
    );
    in_either(
        calls_marked(t.source, file, found, on_self) + inherits_at(t, file, 0)
            + imports_at(t, file, own_module(t, file), 0) + type_refs_at(t, file, 0)
            + reads_at(t, file, 0),
        writes_at(t, file, 0),
        r,
    );
    is_reported(
        facts_of(t, file, found, on_self),
        references_of(t, file, own_module(t, file), found, on_self),
        r,
    );
}

proof fn bindings_reported(
    t: Syntax,
    file: Seq<char>,
    found: Seq<Seq<CaptureView>>,
    on_self: Seq<Seq<CaptureView>>,
    i: int,
    b: BindingView,
)
    requires
        t.nested(),
        0 <= i < t.after(0),
        introduced(t, facts_of(t, file, found, on_self).scopes, i).contains(b),
    ensures
        facts_of(t, file, found, on_self).bindings.contains(b),
{
    let scopes = facts_of(t, file, found, on_self).scopes;
    bindings_in_document_order(t, scopes, 0);
    let k = choose|k: int| 0 <= k < introduced(t, scopes, i).len()
        && introduced(t, scopes, i)[k] == b;
    in_order_each(bindings_of_nodes(t, scopes), 0, t.after(0), i, k);
    assert(bindings_at(t, scopes, 0).contains(b));
    starts_with(
        facts_of(t, file, found, on_self).bindings,
        bindings_at(t, facts_of(t, file, found, on_self).scopes, 0),
        b,
    );
}

proof fn declarators_in_has(
    c: Ctx,
    prefix: Seq<DescriptorView>,
    visibility: Visibility,
    owner: int,
    lo: int,
    hi: int,
    j: int,
    x: SymbolView,
)
    requires
        0 <= lo,
        hi <= c.tree.len(),
        c.tree.reaches(lo, hi, j),
        field_symbols(c, prefix, visibility, owner, j).contains(x),
    ensures
        declarators_in(c, prefix, visibility, owner, lo, hi).contains(x),
    decreases hi - lo,
{
    let own = field_symbols(c, prefix, visibility, owner, lo);
    let rest = declarators_in(c, prefix, visibility, owner, c.tree.next(lo, hi), hi);
    if j != lo {
        declarators_in_has(c, prefix, visibility, owner, c.tree.next(lo, hi), hi, j, x);
    }
    in_either(own, rest, x);
}

proof fn fields_in_has(
    c: Ctx,
    prefix: Seq<DescriptorView>,
    visibility: Visibility,
    owner: int,
    lo: int,
    hi: int,
    j: int,
    x: SymbolView,
)
    requires
        0 <= lo,
        hi <= c.tree.len(),
        c.tree.reaches(lo, hi, j),
        ((if c.tree.kind(j) == "variable_declaration"@ { declarators_in(c, prefix, visibility, owner, j + 1, c.tree.after(j)) } else { Seq::empty() })).contains(
            x,
        ),
    ensures
        fields_in(c, prefix, visibility, owner, lo, hi).contains(x),
    decreases hi - lo,
{
    let own = (if c.tree.kind(lo) == "variable_declaration"@ { declarators_in(c, prefix, visibility, owner, lo + 1, c.tree.after(lo)) } else { Seq::empty() });
    let rest = fields_in(c, prefix, visibility, owner, c.tree.next(lo, hi), hi);
    if j != lo {
        fields_in_has(c, prefix, visibility, owner, c.tree.next(lo, hi), hi, j, x);
    }
    in_either(own, rest, x);
}

proof fn members_in_has(
    c: Ctx,
    prefix: Seq<DescriptorView>,
    implicit: bool,
    lo: int,
    hi: int,
    j: int,
    x: SymbolView,
)
    requires
        0 <= lo,
        hi <= c.tree.len(),
        c.tree.reaches(lo, hi, j),
        ((if c.tree.kind(j) == "method_declaration"@ || c.tree.kind(j) == "constructor_declaration"@ || c.tree.kind(j) == "property_declaration"@ { method_symbols(c, prefix, implicit, j) } else if c.tree.kind(j) == "field_declaration"@ { fields_in( c, prefix, member_visibility(c.tree, j, implicit), j, j + 1, c.tree.after(j), ) } else if c.tree.kind(j) == "enum_member_declaration"@ { constant_symbols(c, prefix, j) } else { type_at(c, prefix, implicit, j) })).contains(
            x,
        ),
    ensures
        members_in(c, prefix, implicit, lo, hi).contains(x),
    decreases hi - lo,
{
    let own = (if c.tree.kind(lo) == "method_declaration"@ || c.tree.kind(lo) == "constructor_declaration"@ || c.tree.kind(lo) == "property_declaration"@ { method_symbols(c, prefix, implicit, lo) } else if c.tree.kind(lo) == "field_declaration"@ { fields_in( c, prefix, member_visibility(c.tree, lo, implicit), lo, lo + 1, c.tree.after(lo), ) } else if c.tree.kind(lo) == "enum_member_declaration"@ { constant_symbols(c, prefix, lo) } else { type_at(c, prefix, implicit, lo) });
    let rest = members_in(c, prefix, implicit, c.tree.next(lo, hi), hi);
    if j != lo {
        members_in_has(c, prefix, implicit, c.tree.next(lo, hi), hi, j, x);
    }
    in_either(own, rest, x);
}

proof fn types_in_has(
    c: Ctx,
    prefix: Seq<DescriptorView>,
    implicit: bool,
    lo: int,
    hi: int,
    j: int,
    x: SymbolView,
)
    requires
        0 <= lo,
        hi <= c.tree.len(),
        c.tree.reaches(lo, hi, j),
        ((if c.tree.kind(j) == "namespace_declaration"@ || c.tree.kind(j) == "file_scoped_namespace_declaration"@ { match c.tree.child(j, "body"@) { Some(body) => types_in(c, prefix, false, body + 1, c.tree.after(body)), None => Seq::empty(), } } else { type_at(c, prefix, implicit, j) })).contains(
            x,
        ),
    ensures
        types_in(c, prefix, implicit, lo, hi).contains(x),
    decreases hi - lo,
{
    let own = (if c.tree.kind(lo) == "namespace_declaration"@ || c.tree.kind(lo) == "file_scoped_namespace_declaration"@ { match c.tree.child(lo, "body"@) { Some(body) => types_in(c, prefix, false, body + 1, c.tree.after(body)), None => Seq::empty(), } } else { type_at(c, prefix, implicit, lo) });
    let rest = types_in(c, prefix, implicit, c.tree.next(lo, hi), hi);
    if j != lo {
        types_in_has(c, prefix, implicit, c.tree.next(lo, hi), hi, j, x);
    }
    in_either(own, rest, x);
}

proof fn bases_in_has(t: Syntax, file: Seq<char>, lo: int, hi: int, j: int, x: ReferenceView)
    requires
        0 <= lo,
        hi <= t.len(),
        t.reaches(lo, hi, j),
        base_of(t, file, j).contains(x),
    ensures
        bases_in(t, file, lo, hi).contains(x),
    decreases hi - lo,
{
    let own = base_of(t, file, lo);
    let rest = bases_in(t, file, t.next(lo, hi), hi);
    if j != lo {
        bases_in_has(t, file, t.next(lo, hi), hi, j, x);
    }
    in_either(own, rest, x);
}

proof fn leaves_in_has(
    t: Syntax,
    file: Seq<char>,
    ctx: TypeRefContext,
    lo: int,
    hi: int,
    j: int,
    x: ReferenceView,
)
    requires
        0 <= lo,
        hi <= t.len(),
        t.reaches(lo, hi, j),
        ((if t.named(j) { leaves_at(t, file, ctx, j) } else { Seq::empty() })).contains(x),
    ensures
        leaves_in(t, file, ctx, lo, hi).contains(x),
    decreases hi - lo,
{
    let own = (if t.named(lo) { leaves_at(t, file, ctx, lo) } else { Seq::empty() });
    let rest = leaves_in(t, file, ctx, t.next(lo, hi), hi);
    if j != lo {
        leaves_in_has(t, file, ctx, t.next(lo, hi), hi, j, x);
    }
    in_either(own, rest, x);
}

proof fn field_types_in_has(t: Syntax, file: Seq<char>, lo: int, hi: int, j: int, x: ReferenceView)
    requires
        0 <= lo,
        hi <= t.len(),
        t.reaches(lo, hi, j),
        ((if t.kind(j) == "variable_declaration"@ { typed_refs(t, file, TypeRefContext::Field, "type"@, j) } else { Seq::empty() })).contains(
            x,
        ),
    ensures
        field_types_in(t, file, lo, hi).contains(x),
    decreases hi - lo,
{
    let own = (if t.kind(lo) == "variable_declaration"@ { typed_refs(t, file, TypeRefContext::Field, "type"@, lo) } else { Seq::empty() });
    let rest = field_types_in(t, file, t.next(lo, hi), hi);
    if j != lo {
        field_types_in_has(t, file, t.next(lo, hi), hi, j, x);
    }
    in_either(own, rest, x);
}

proof fn locals_in_has(
    t: Syntax,
    scopes: Seq<Scope>,
    owner: int,
    lo: int,
    hi: int,
    j: int,
    x: BindingView,
)
    requires
        0 <= lo,
        hi <= t.len(),
        t.reaches(lo, hi, j),
        local_at(t, scopes, owner, j).contains(x),
    ensures
        locals_in(t, scopes, owner, lo, hi).contains(x),
    decreases hi - lo,
{
    let own = local_at(t, scopes, owner, lo);
    let rest = locals_in(t, scopes, owner, t.next(lo, hi), hi);
    if j != lo {
        locals_in_has(t, scopes, owner, t.next(lo, hi), hi, j, x);
    }
    in_either(own, rest, x);
}

proof fn declared_in_has(t: Syntax, scopes: Seq<Scope>, lo: int, hi: int, j: int, x: BindingView)
    requires
        0 <= lo,
        hi <= t.len(),
        t.reaches(lo, hi, j),
        ((if t.kind(j) == "variable_declaration"@ { locals_in(t, scopes, j, j + 1, t.after(j)) } else { Seq::empty() })).contains(
            x,
        ),
    ensures
        declared_in(t, scopes, lo, hi).contains(x),
    decreases hi - lo,
{
    let own = (if t.kind(lo) == "variable_declaration"@ { locals_in(t, scopes, lo, lo + 1, t.after(lo)) } else { Seq::empty() });
    let rest = declared_in(t, scopes, t.next(lo, hi), hi);
    if j != lo {
        declared_in_has(t, scopes, t.next(lo, hi), hi, j, x);
    }
    in_either(own, rest, x);
}

proof fn params_in_has(t: Syntax, scopes: Seq<Scope>, lo: int, hi: int, j: int, x: BindingView)
    requires
        0 <= lo,
        hi <= t.len(),
        t.reaches(lo, hi, j),
        param_at(t, scopes, j).contains(x),
    ensures
        params_in(t, scopes, lo, hi).contains(x),
    decreases hi - lo,
{
    let own = param_at(t, scopes, lo);
    let rest = params_in(t, scopes, t.next(lo, hi), hi);
    if j != lo {
        params_in_has(t, scopes, t.next(lo, hi), hi, j, x);
    }
    in_either(own, rest, x);
}

/// Whether a node declares a type.
pub open spec fn is_type(t: Syntax, i: int) -> bool {
    ||| t.kind(i) == "class_declaration"@
    ||| t.kind(i) == "record_declaration"@
    ||| t.kind(i) == "struct_declaration"@
    ||| t.kind(i) == "interface_declaration"@
    ||| t.kind(i) == "enum_declaration"@
}

/// Whether a node declares a namespace.
pub open spec fn is_namespace(t: Syntax, i: int) -> bool {
    t.kind(i) == "namespace_declaration"@ || t.kind(i) == "file_scoped_namespace_declaration"@
}

/// Whether node `i` stands in the file, or in the body of a namespace that does.
pub open spec fn in_namespaces(t: Syntax, i: int) -> bool
    decreases i,
{
    t.has_child(0, i) || exists|owner: int, body: int|
        #![trigger t.child(owner, "body"@), t.has_child(body, i)]
        0 < owner < body < i && in_namespaces(t, owner) && is_namespace(t, owner)
            && t.child(owner, "body"@) == Some(body) && t.has_child(body, i)
}

/// Whether node `i` stands in the file, in a namespace, or in the body of a type
/// with a name that does.
pub open spec fn in_types(t: Syntax, i: int) -> bool
    decreases i,
{
    in_namespaces(t, i) || exists|owner: int, body: int|
        #![trigger t.child(owner, "body"@), t.has_child(body, i)]
        0 < owner < body < i && in_types(t, owner) && is_type(t, owner)
            && t.child(owner, "name"@) is Some && t.child(owner, "body"@) == Some(body)
            && t.has_child(body, i)
}

/// Whether node `i` carries a modifier.
pub open spec fn carries(t: Syntax, i: int, word: Seq<char>) -> bool {
    exists|m: int| #[trigger] t.has_child(i, m) && t.kind(m) == "modifier"@ && t.text(m) == word
}

/// The visibility that the modifiers of node `i` give it.
pub open spec fn written_visibility(t: Syntax, i: int) -> Visibility {
    if carries(t, i, "private"@) {
        Visibility::Private
    } else if carries(t, i, "protected"@) {
        Visibility::Protected
    } else if carries(t, i, "public"@) {
        Visibility::Public
    } else {
        Visibility::Internal
    }
}

proof fn modifier_is_child(t: Syntax, lo: int, hi: int, word: Seq<char>)
    ensures
        modifier_in(t, lo, hi, word) <==> exists|m: int| #[trigger] t.reaches(lo, hi, m)
            && t.kind(m) == "modifier"@ && t.text(m) == word,
    decreases hi - lo,
{
    if lo < hi {
        modifier_is_child(t, t.next(lo, hi), hi, word);
        let here = t.kind(lo) == "modifier"@ && t.text(lo) == word;
        if modifier_in(t, lo, hi, word) {
            if here {
                assert(t.reaches(lo, hi, lo));
            } else {
                let m = choose|m: int| #[trigger] t.reaches(t.next(lo, hi), hi, m)
                    && t.kind(m) == "modifier"@ && t.text(m) == word;
                assert(t.reaches(lo, hi, m));
            }
        } else {
            assert forall|m: int| #[trigger] t.reaches(lo, hi, m) implies !(t.kind(m) == "modifier"@ && t.text(m) == word) by {
                if m != lo {
                    assert(t.reaches(t.next(lo, hi), hi, m));
                }
            }
        }
    }
}

proof fn modifiers_are_carried(t: Syntax, i: int, word: Seq<char>)
    requires
        t.has(i),
    ensures
        modified(t, i, word) == carries(t, i, word),
{
    modifier_is_child(t, i + 1, t.after(i), word);
    if modified(t, i, word) {
        let m = choose|m: int| #[trigger] t.reaches(i + 1, t.after(i), m)
            && t.kind(m) == "modifier"@ && t.text(m) == word;
        assert(t.has_child(i, m));
    }
    if carries(t, i, word) {
        let m = choose|m: int| #[trigger] t.has_child(i, m) && t.kind(m) == "modifier"@
            && t.text(m) == word;
        assert(t.reaches(i + 1, t.after(i), m));
    }
}

proof fn visibility_is_written(t: Syntax, i: int)
    requires
        t.has(i),
    ensures
        visibility_at(t, i) == written_visibility(t, i),
{
    modifiers_are_carried(t, i, "private"@);
    modifiers_are_carried(t, i, "protected"@);
    modifiers_are_carried(t, i, "public"@);
}

/// What a node of a file or of a namespace defines.
spec fn placed(c: Ctx, prefix: Seq<DescriptorView>, i: int) -> Seq<SymbolView> {
    if is_namespace(c.tree, i) {
        match c.tree.child(i, "body"@) {
            Some(body) => types_in(c, prefix, false, body + 1, c.tree.after(body)),
            None => Seq::empty(),
        }
    } else {
        type_at(c, prefix, false, i)
    }
}

proof fn placed_is_defined(c: Ctx, prefix: Seq<DescriptorView>, i: int, x: SymbolView)
    requires
        in_namespaces(c.tree, i),
        placed(c, prefix, i).contains(x),
    ensures
        types_in(c, prefix, false, 1, c.tree.after(0)).contains(x),
    decreases i,
{
    let t = c.tree;
    if t.has_child(0, i) {
        types_in_has(c, prefix, false, 1, t.after(0), i, x);
    } else {
        let (owner, body) = choose|owner: int, body: int|
            #![trigger t.child(owner, "body"@), t.has_child(body, i)]
            0 < owner < body < i && in_namespaces(t, owner) && is_namespace(t, owner)
                && t.child(owner, "body"@) == Some(body) && t.has_child(body, i);
        types_in_has(c, prefix, false, body + 1, t.after(body), i, x);
        placed_is_defined(c, prefix, owner, x);
    }
}

/// Whether a node declares an interface.
spec fn is_interface(t: Syntax, i: int) -> bool {
    t.kind(i) == "interface_declaration"@
}

/// The steps and the default under which a type that stands in a file is defined.
proof fn type_is_placed(
    c: Ctx,
    prefix: Seq<DescriptorView>,
    i: int,
) -> (at: (Seq<DescriptorView>, bool))
    requires
        in_types(c.tree, i),
        is_type(c.tree, i),
    ensures
        forall|x: SymbolView| #[trigger] type_at(c, at.0, at.1, i).contains(x)
            ==> types_in(c, prefix, false, 1, c.tree.after(0)).contains(x),
        in_namespaces(c.tree, i) ==> !at.1,
    decreases i,
{
    types_in_kinds();
    members_in_kinds();
    let t = c.tree;
    if in_namespaces(t, i) {
        assert forall|x: SymbolView| #[trigger] type_at(c, prefix, false, i).contains(x) implies types_in(c, prefix, false, 1, t.after(0)).contains(x) by {
            placed_is_defined(c, prefix, i, x);
        }
        (prefix, false)
    } else {
        let (owner, body) = choose|owner: int, body: int|
            #![trigger t.child(owner, "body"@), t.has_child(body, i)]
            0 < owner < body < i && in_types(t, owner) && is_type(t, owner)
                && t.child(owner, "name"@) is Some && t.child(owner, "body"@) == Some(body)
                && t.has_child(body, i);
        let at = members_are_placed(c, prefix, owner, body).id;
        assert forall|x: SymbolView| #[trigger] type_at(c, at, is_interface(t, owner), i).contains(x) implies types_in(c, prefix, false, 1, t.after(0)).contains(x) by {
            members_in_has(c, at, is_interface(t, owner), body + 1, t.after(body), i, x);
        }
        (at, is_interface(t, owner))
    }
}

/// The steps under which the members of a type are defined.
proof fn members_are_placed(
    c: Ctx,
    prefix: Seq<DescriptorView>,
    i: int,
    body: int,
) -> (outer: SymbolView)
    requires
        in_types(c.tree, i),
        is_type(c.tree, i),
        c.tree.child(i, "name"@) is Some,
        c.tree.child(i, "body"@) == Some(body),
    ensures
        types_in(c, prefix, false, 1, c.tree.after(0)).contains(outer),
        outer.occ == occurrence_at(c.tree, c.file, i),
        forall|x: SymbolView| #[trigger] members_in(c, outer.id, is_interface(c.tree, i), body + 1, c.tree.after(body)).contains(
            x,
        )
            ==> types_in(c, prefix, false, 1, c.tree.after(0)).contains(x),
    decreases i + 1,
{
    type_kind_kinds();
    let t = c.tree;
    let (own, implicit) = type_is_placed(c, prefix, i);
    let name = t.text(t.child(i, "name"@)->0);
    let at = own + seq![DescriptorView::Type(name)];
    assert forall|x: SymbolView| #[trigger] members_in(c, at, is_interface(t, i), body + 1, t.after(body)).contains(x) implies types_in(c, prefix, false, 1, t.after(0)).contains(x) by {
        let first = seq![type_at(c, own, implicit, i)[0]];
        let rest = members_in(c, at, is_interface(t, i), body + 1, t.after(body));
        assert(type_at(c, own, implicit, i) =~= first + rest);
        in_either(first, rest, x);
        assert(type_at(c, own, implicit, i).contains(x));
    }
    let outer = type_at(c, own, implicit, i)[0];
    assert(type_at(c, own, implicit, i).contains(outer));
    assert(outer.id =~= at);
    outer
}

/// Each type with a name that stands in a C# file, in a namespace or in the
/// body of such a type is defined: a class or a record as a class, a struct, an
/// interface and an enum as what they are.
pub proof fn types_are_defined(
    t: Syntax,
    file: Seq<char>,
    found: Seq<Seq<CaptureView>>,
    on_self: Seq<Seq<CaptureView>>,
    i: int,
    n: int,
)
    requires
        in_types(t, i),
        is_type(t, i),
        t.has(i),
        t.child(i, "name"@) == Some(n),
    ensures
        defines(
            facts_of(t, file, found, on_self),
            t,
            i,
            t.text(n),
            (if t.kind(i) == "struct_declaration"@ { SymbolKind::Struct } else if t.kind(i) == "interface_declaration"@ { SymbolKind::Interface } else if t.kind(i) == "enum_declaration"@ { SymbolKind::Enum } else { SymbolKind::Class }),
        ),
{
    type_kind_kinds();
    let c = context(t, file);
    let prefix = steps(t, file);
    let (own, implicit) = type_is_placed(c, prefix, i);
    let x = type_at(c, own, implicit, i)[0];
    assert(type_at(c, own, implicit, i).contains(x));
    starts_with(
        facts_of(t, file, found, on_self).symbols,
        types_in(c, prefix, false, 1, t.after(0)),
        x,
    );
}

/// A type that stands in a C# file or a namespace has the visibility that its
/// modifiers give it.
pub proof fn outer_types_show_their_modifiers(
    t: Syntax,
    file: Seq<char>,
    found: Seq<Seq<CaptureView>>,
    on_self: Seq<Seq<CaptureView>>,
    i: int,
    n: int,
)
    requires
        in_namespaces(t, i),
        is_type(t, i),
        t.has(i),
        t.child(i, "name"@) == Some(n),
    ensures
        defines_as(
            facts_of(t, file, found, on_self),
            t,
            i,
            t.text(n),
            (if t.kind(i) == "struct_declaration"@ { SymbolKind::Struct } else if t.kind(i) == "interface_declaration"@ { SymbolKind::Interface } else if t.kind(i) == "enum_declaration"@ { SymbolKind::Enum } else { SymbolKind::Class }),
            written_visibility(t, i),
        ),
{
    type_kind_kinds();
    let c = context(t, file);
    let prefix = steps(t, file);
    let (own, implicit) = type_is_placed(c, prefix, i);
    visibility_is_written(t, i);
    let x = type_at(c, own, implicit, i)[0];
    assert(type_at(c, own, implicit, i).contains(x));
    starts_with(
        facts_of(t, file, found, on_self).symbols,
        types_in(c, prefix, false, 1, t.after(0)),
        x,
    );
}

/// Each method, constructor and property with a name in the body of a type is
/// defined as a method. It is public in an interface, and has the visibility of
/// its modifiers elsewhere.
pub proof fn methods_are_defined(
    t: Syntax,
    file: Seq<char>,
    found: Seq<Seq<CaptureView>>,
    on_self: Seq<Seq<CaptureView>>,
    owner: int,
    body: int,
    i: int,
    n: int,
)
    requires
        in_types(t, owner),
        is_type(t, owner),
        t.child(owner, "name"@) is Some,
        t.child(owner, "body"@) == Some(body),
        t.has_child(body, i),
        t.kind(i) == "method_declaration"@ || t.kind(i) == "constructor_declaration"@
            || t.kind(i) == "property_declaration"@,
        t.child(i, "name"@) == Some(n),
    ensures
        defines_as(
            facts_of(t, file, found, on_self),
            t,
            i,
            t.text(n),
            SymbolKind::Method,
            (if t.kind(owner) == "interface_declaration"@ { Visibility::Public } else { written_visibility(t, i) }),
        ),
        defines_in(facts_of(t, file, found, on_self), t, owner, i, t.text(n), SymbolKind::Method),
{
    members_in_kinds();
    let c = context(t, file);
    let prefix = steps(t, file);
    let outer = members_are_placed(c, prefix, owner, body);
    let at = outer.id;
    let implicit = is_interface(t, owner);
    reached_is_behind(t, body + 1, t.after(body), i);
    visibility_is_written(t, i);
    let x = method_symbols(c, at, implicit, i)[0];
    assert(method_symbols(c, at, implicit, i).contains(x));
    members_in_has(c, at, implicit, body + 1, t.after(body), i, x);
    starts_with(
        facts_of(t, file, found, on_self).symbols,
        types_in(c, prefix, false, 1, t.after(0)),
        x,
    );
    starts_with(
        facts_of(t, file, found, on_self).symbols,
        types_in(c, prefix, false, 1, t.after(0)),
        outer,
    );
    assert(x.id =~= outer.id.push(x.id.last()));
}

/// Each member with a name in the body of a type is a public constant if it is
/// that of an enum.
pub proof fn enum_members_are_defined(
    t: Syntax,
    file: Seq<char>,
    found: Seq<Seq<CaptureView>>,
    on_self: Seq<Seq<CaptureView>>,
    owner: int,
    body: int,
    i: int,
    n: int,
)
    requires
        in_types(t, owner),
        is_type(t, owner),
        t.child(owner, "name"@) is Some,
        t.child(owner, "body"@) == Some(body),
        t.has_child(body, i),
        t.kind(i) == "enum_member_declaration"@,
        t.child(i, "name"@) == Some(n),
    ensures
        defines_as(
            facts_of(t, file, found, on_self),
            t,
            i,
            t.text(n),
            SymbolKind::Const,
            Visibility::Public,
        ),
        defines_in(facts_of(t, file, found, on_self), t, owner, i, t.text(n), SymbolKind::Const),
{
    members_in_kinds();
    let c = context(t, file);
    let prefix = steps(t, file);
    let outer = members_are_placed(c, prefix, owner, body);
    let at = outer.id;
    let implicit = is_interface(t, owner);
    reached_is_behind(t, body + 1, t.after(body), i);
    visibility_is_written(t, i);
    let x = constant_symbols(c, at, i)[0];
    assert(constant_symbols(c, at, i).contains(x));
    members_in_has(c, at, implicit, body + 1, t.after(body), i, x);
    starts_with(
        facts_of(t, file, found, on_self).symbols,
        types_in(c, prefix, false, 1, t.after(0)),
        x,
    );
    starts_with(
        facts_of(t, file, found, on_self).symbols,
        types_in(c, prefix, false, 1, t.after(0)),
        outer,
    );
    assert(x.id =~= outer.id.push(x.id.last()));
}

/// Each variable of a field in the body of a type is a static variable at the
/// field, with the visibility of the field.
pub proof fn fields_are_defined(
    t: Syntax,
    file: Seq<char>,
    found: Seq<Seq<CaptureView>>,
    on_self: Seq<Seq<CaptureView>>,
    owner: int,
    body: int,
    i: int,
    list: int,
    d: int,
    n: int,
)
    requires
        in_types(t, owner),
        is_type(t, owner),
        t.child(owner, "name"@) is Some,
        t.child(owner, "body"@) == Some(body),
        t.has_child(body, i),
        t.kind(i) == "field_declaration"@,
        t.has_child(i, list),
        t.kind(list) == "variable_declaration"@,
        t.has_child(list, d),
        t.kind(d) == "variable_declarator"@,
        t.child_of_kind(d, "identifier"@) == Some(n),
    ensures
        defines_as(
            facts_of(t, file, found, on_self),
            t,
            i,
            t.text(n),
            SymbolKind::Static,
            (if t.kind(owner) == "interface_declaration"@ { Visibility::Public } else { written_visibility(t, i) }),
        ),
        defines_in(facts_of(t, file, found, on_self), t, owner, i, t.text(n), SymbolKind::Static),
{
    members_in_kinds();
    let c = context(t, file);
    let prefix = steps(t, file);
    let outer = members_are_placed(c, prefix, owner, body);
    let at = outer.id;
    let implicit = is_interface(t, owner);
    reached_is_behind(t, body + 1, t.after(body), i);
    visibility_is_written(t, i);
    let x = field_symbols(c, at, member_visibility(t, i, implicit), i, d)[0];
    reached_is_behind(t, i + 1, t.after(i), list);
    reached_is_behind(t, list + 1, t.after(list), d);
    let shown = member_visibility(t, i, implicit);
    assert(field_symbols(c, at, shown, i, d).contains(x));
    declarators_in_has(c, at, shown, i, list + 1, t.after(list), d, x);
    fields_in_has(c, at, shown, i, i + 1, t.after(i), list, x);
    members_in_has(c, at, implicit, body + 1, t.after(body), i, x);
    starts_with(
        facts_of(t, file, found, on_self).symbols,
        types_in(c, prefix, false, 1, t.after(0)),
        x,
    );
    starts_with(
        facts_of(t, file, found, on_self).symbols,
        types_in(c, prefix, false, 1, t.after(0)),
        outer,
    );
    assert(x.id =~= outer.id.push(x.id.last()));
}

/// A static method with the name `Main` in the body of a type is where the
/// program starts.
pub proof fn programs_start_at_main(
    t: Syntax,
    file: Seq<char>,
    found: Seq<Seq<CaptureView>>,
    on_self: Seq<Seq<CaptureView>>,
    owner: int,
    body: int,
    i: int,
    n: int,
)
    requires
        in_types(t, owner),
        is_type(t, owner),
        t.child(owner, "name"@) is Some,
        t.child(owner, "body"@) == Some(body),
        t.has_child(body, i),
        t.kind(i) == "method_declaration"@,
        t.child(i, "name"@) == Some(n),
        t.text(n) == "Main"@,
        carries(t, i, "static"@),
    ensures
        is_entered(facts_of(t, file, found, on_self), t, i, t.text(n), EntryPointView::Main),
{
    members_in_kinds();
    let c = context(t, file);
    let prefix = steps(t, file);
    let outer = members_are_placed(c, prefix, owner, body);
    let at = outer.id;
    let implicit = is_interface(t, owner);
    reached_is_behind(t, body + 1, t.after(body), i);
    visibility_is_written(t, i);
    let x = method_symbols(c, at, implicit, i)[0];
    modifiers_are_carried(t, i, "static"@);
    assert(x.entry_points[0] == EntryPointView::Main);
    assert(method_symbols(c, at, implicit, i).contains(x));
    members_in_has(c, at, implicit, body + 1, t.after(body), i, x);
    starts_with(
        facts_of(t, file, found, on_self).symbols,
        types_in(c, prefix, false, 1, t.after(0)),
        x,
    );
}

/// Each type with a name in the body of a type stands in it.
pub proof fn inner_types_stand_in_types(
    t: Syntax,
    file: Seq<char>,
    found: Seq<Seq<CaptureView>>,
    on_self: Seq<Seq<CaptureView>>,
    owner: int,
    body: int,
    i: int,
    n: int,
)
    requires
        in_types(t, owner),
        is_type(t, owner),
        t.child(owner, "name"@) is Some,
        t.child(owner, "body"@) == Some(body),
        t.has_child(body, i),
        is_type(t, i),
        t.child(i, "name"@) == Some(n),
    ensures
        defines_as(
            facts_of(t, file, found, on_self),
            t,
            i,
            t.text(n),
            (if t.kind(i) == "struct_declaration"@ { SymbolKind::Struct } else if t.kind(i) == "interface_declaration"@ { SymbolKind::Interface } else if t.kind(i) == "enum_declaration"@ { SymbolKind::Enum } else { SymbolKind::Class }),
            (if t.kind(owner) == "interface_declaration"@ { Visibility::Public } else { written_visibility(t, i) }),
        ),
        defines_in(
            facts_of(t, file, found, on_self),
            t,
            owner,
            i,
            t.text(n),
            (if t.kind(i) == "struct_declaration"@ { SymbolKind::Struct } else if t.kind(i) == "interface_declaration"@ { SymbolKind::Interface } else if t.kind(i) == "enum_declaration"@ { SymbolKind::Enum } else { SymbolKind::Class }),
        ),
{
    members_in_kinds();
    type_kind_kinds();
    let c = context(t, file);
    let prefix = steps(t, file);
    let outer = members_are_placed(c, prefix, owner, body);
    let at = outer.id;
    let implicit = is_interface(t, owner);
    reached_is_behind(t, body + 1, t.after(body), i);
    visibility_is_written(t, i);
    let x = type_at(c, at, implicit, i)[0];
    assert(type_at(c, at, implicit, i).contains(x));
    members_in_has(c, at, implicit, body + 1, t.after(body), i, x);
    starts_with(
        facts_of(t, file, found, on_self).symbols,
        types_in(c, prefix, false, 1, t.after(0)),
        x,
    );
    starts_with(
        facts_of(t, file, found, on_self).symbols,
        types_in(c, prefix, false, 1, t.after(0)),
        outer,
    );
    assert(x.id =~= outer.id.push(x.id.last()));
}

/// Each type in a list of bases is implemented: by its name, or by the last
/// piece of a qualified or generic one.
pub proof fn listed_bases_are_implemented(
    t: Syntax,
    file: Seq<char>,
    found: Seq<Seq<CaptureView>>,
    on_self: Seq<Seq<CaptureView>>,
    i: int,
    n: int,
)
    requires
        t.nested(),
        0 <= i < t.after(0),
        t.kind(i) == "base_list"@,
        t.has_child(i, n),
        t.kind(n) == "identifier"@ || t.kind(n) == "qualified_name"@
            || t.kind(n) == "generic_name"@,
    ensures
        refers(
            facts_of(t, file, found, on_self),
            t,
            n,
            if t.kind(n) == "identifier"@ { t.text(n) } else { simple_name(t.text(n), "."@) },
            RefRole::IsImplementation,
        ),
{
    base_of_kinds();
    let b = base_of(t, file, n)[0];
    assert(base_of(t, file, n).contains(b));
    bases_in_has(t, file, i + 1, t.after(i), n, b);
    let x = reference_at(
        t,
        file,
        n,
        if t.kind(n) == "identifier"@ { t.text(n) } else { simple_name(t.text(n), "."@) },
        RefRole::IsImplementation,
    );
    inherits_reported(t, file, found, on_self, i, x);
}

/// An assignment, whatever its operator, writes the identifier on its left.
pub proof fn assignments_write(
    t: Syntax,
    file: Seq<char>,
    found: Seq<Seq<CaptureView>>,
    on_self: Seq<Seq<CaptureView>>,
    i: int,
    left: int,
)
    requires
        t.nested(),
        0 <= i < t.after(0),
        t.kind(i) == "assignment_expression"@,
        t.child(i, "left"@) == Some(left),
        t.kind(left) == "identifier"@,
        long_enough(t.text(left)),
    ensures
        refers(facts_of(t, file, found, on_self), t, left, t.text(left), RefRole::Write),
{
    let x = reference_at(t, file, left, t.text(left), RefRole::Write);
    assert(write_of(t, file, i)[0] == x);
    writes_reported(t, file, found, on_self, i, x);
}

/// An identifier is read unless it is called, assigned to, the name or the type
/// of something, or a part of a name, a list of bases, a list of type arguments
/// or an import.
pub proof fn values_are_read(
    t: Syntax,
    file: Seq<char>,
    found: Seq<Seq<CaptureView>>,
    on_self: Seq<Seq<CaptureView>>,
    i: int,
    p: int,
)
    requires
        t.nested(),
        0 <= i < t.after(0),
        t.kind(i) == "identifier"@,
        long_enough(t.text(i)),
        t.parent(i) == Some(p),
        !t.in_field(i, "type"@),
        !t.in_field(i, "returns"@),
        !t.in_field(i, "name"@),
        !(t.in_field(i, "function"@) && t.kind(p) == "invocation_expression"@),
        !(t.in_field(i, "left"@) && (t.kind(p) == "assignment_expression"@ || t.kind(p) == "foreach_statement"@)),
        t.kind(p) != "generic_name"@,
        t.kind(p) != "using_directive"@,
        t.kind(p) != "qualified_name"@,
        t.kind(p) != "base_list"@,
        t.kind(p) != "type_argument_list"@,
        forall|j: int, k: int| t.has(j) && t.kind(j) == "identifier"@
            && j < k < #[trigger] t.after(j)
            ==> #[trigger] t.kind(k) != "identifier"@,
    ensures
        refers(facts_of(t, file, found, on_self), t, i, t.text(i), RefRole::Read),
{
    child_stands_in_field(t, p, "function"@);
    child_stands_in_field(t, p, "name"@);
    child_stands_in_field(t, p, "type"@);
    child_stands_in_field(t, p, "returns"@);
    child_stands_in_field(t, p, "left"@);
    let x = reference_at(t, file, i, t.text(i), RefRole::Read);
    assert(read_of(t, file, i)[0] == x);
    reads_reported(t, file, found, on_self, i, x);
}

/// Whether the type `i` leads to the type name `n`: it is that name, or its
/// first part leads there where it can be null or is an array, or any part of
/// another type does.
pub open spec fn leads_to(t: Syntax, i: int, n: int) -> bool
    decreases n - i,
{
    if i >= n {
        i == n && (t.kind(i) == "identifier"@ || t.kind(i) == "qualified_name"@ || t.kind(i)
            == "generic_name"@)
    } else if t.kind(i) == "nullable_type"@ || t.kind(i) == "array_type"@ {
        t.named_child(i) matches Some(c) && i < c <= n && leads_to(t, c, n)
    } else if t.kind(i) == "identifier"@ || t.kind(i) == "qualified_name"@
        || t.kind(i) == "generic_name"@ || t.kind(i) == "predefined_type"@
        || t.kind(i) == "void_keyword"@ {
        false
    } else {
        exists|c: int| #[trigger] t.has_child(i, c) && t.named(c) && i < c <= n && leads_to(t, c, n)
    }
}

/// What a type is called where it is referred to.
pub open spec fn called(t: Syntax, n: int) -> Seq<char> {
    if t.kind(n) == "identifier"@ {
        t.text(n)
    } else {
        simple_name(t.text(n), "."@)
    }
}

proof fn leaves_are_found(t: Syntax, file: Seq<char>, position: TypeRefContext, i: int, n: int)
    requires
        t.has(i),
        leads_to(t, i, n),
    ensures
        leaves_at(t, file, position, i).contains(
            type_reference_at(t, file, n, called(t, n), position),
        ),
    decreases n - i,
{
    leaves_at_kinds();
    let x = type_reference_at(t, file, n, called(t, n), position);
    if i >= n {
        assert(leaves_at(t, file, position, i)[0] == x);
    } else if t.kind(i) == "nullable_type"@ || t.kind(i) == "array_type"@ {
        leaves_are_found(t, file, position, t.named_child(i)->0, n);
    } else {
        let c = choose|c: int| #[trigger] t.has_child(i, c) && t.named(c) && i < c <= n
            && leads_to(t, c, n);
        reached_is_behind(t, i + 1, t.after(i), c);
        leaves_are_found(t, file, position, c, n);
        leaves_in_has(t, file, position, i + 1, t.after(i), c, x);
    }
}

/// A method refers to the type that it returns.
pub proof fn returned_types_are_referred_to(
    t: Syntax,
    file: Seq<char>,
    found: Seq<Seq<CaptureView>>,
    on_self: Seq<Seq<CaptureView>>,
    i: int,
    ty: int,
    n: int,
)
    requires
        t.nested(),
        0 <= i < t.after(0),
        t.kind(i) == "method_declaration"@,
        t.child(i, "returns"@) == Some(ty),
        leads_to(t, ty, n),
    ensures
        refers_to_type(
            facts_of(t, file, found, on_self),
            t,
            n,
            called(t, n),
            TypeRefContext::ReturnType,
        ),
{
    own_type_refs_kinds();
    leaves_are_found(t, file, TypeRefContext::ReturnType, ty, n);
    let x = type_reference_at(t, file, n, called(t, n), TypeRefContext::ReturnType);
    type_refs_reported(t, file, found, on_self, i, x);
}

/// A parameter refers to its type.
pub proof fn parameter_types_are_referred_to(
    t: Syntax,
    file: Seq<char>,
    found: Seq<Seq<CaptureView>>,
    on_self: Seq<Seq<CaptureView>>,
    i: int,
    ty: int,
    n: int,
)
    requires
        t.nested(),
        0 <= i < t.after(0),
        t.kind(i) == "parameter"@,
        t.child(i, "type"@) == Some(ty),
        leads_to(t, ty, n),
    ensures
        refers_to_type(
            facts_of(t, file, found, on_self),
            t,
            n,
            called(t, n),
            TypeRefContext::ParameterType,
        ),
{
    own_type_refs_kinds();
    leaves_are_found(t, file, TypeRefContext::ParameterType, ty, n);
    let x = type_reference_at(t, file, n, called(t, n), TypeRefContext::ParameterType);
    type_refs_reported(t, file, found, on_self, i, x);
}

/// A property refers to its type.
pub proof fn property_types_are_referred_to(
    t: Syntax,
    file: Seq<char>,
    found: Seq<Seq<CaptureView>>,
    on_self: Seq<Seq<CaptureView>>,
    i: int,
    ty: int,
    n: int,
)
    requires
        t.nested(),
        0 <= i < t.after(0),
        t.kind(i) == "property_declaration"@,
        t.child(i, "type"@) == Some(ty),
        leads_to(t, ty, n),
    ensures
        refers_to_type(
            facts_of(t, file, found, on_self),
            t,
            n,
            called(t, n),
            TypeRefContext::Field,
        ),
{
    own_type_refs_kinds();
    leaves_are_found(t, file, TypeRefContext::Field, ty, n);
    let x = type_reference_at(t, file, n, called(t, n), TypeRefContext::Field);
    type_refs_reported(t, file, found, on_self, i, x);
}

/// A field refers to its type.
pub proof fn field_types_are_referred_to(
    t: Syntax,
    file: Seq<char>,
    found: Seq<Seq<CaptureView>>,
    on_self: Seq<Seq<CaptureView>>,
    i: int,
    list: int,
    ty: int,
    n: int,
)
    requires
        t.nested(),
        0 <= i < t.after(0),
        t.kind(i) == "field_declaration"@,
        t.has_child(i, list),
        t.kind(list) == "variable_declaration"@,
        t.child(list, "type"@) == Some(ty),
        leads_to(t, ty, n),
    ensures
        refers_to_type(
            facts_of(t, file, found, on_self),
            t,
            n,
            called(t, n),
            TypeRefContext::Field,
        ),
{
    own_type_refs_kinds();
    leaves_are_found(t, file, TypeRefContext::Field, ty, n);
    reached_is_behind(t, i + 1, t.after(i), list);
    field_types_in_has(
        t,
        file,
        i + 1,
        t.after(i),
        list,
        type_reference_at(t, file, n, called(t, n), TypeRefContext::Field),
    );
    let x = type_reference_at(t, file, n, called(t, n), TypeRefContext::Field);
    type_refs_reported(t, file, found, on_self, i, x);
}

/// Each parameter of a method or a constructor is bound in the innermost scope
/// at its place. It has the type that it is declared with.
pub proof fn parameters_are_bound(
    t: Syntax,
    file: Seq<char>,
    found: Seq<Seq<CaptureView>>,
    on_self: Seq<Seq<CaptureView>>,
    i: int,
    list: int,
    p: int,
    n: int,
)
    requires
        t.nested(),
        0 <= i < t.after(0),
        t.kind(i) == "method_declaration"@ || t.kind(i) == "constructor_declaration"@,
        t.child(i, "parameters"@) == Some(list),
        t.has_child(list, p),
        t.named(p),
        t.kind(p) == "parameter"@,
        t.child(p, "name"@) == Some(n),
        facts_of(t, file, found, on_self).scopes.len() <= usize::MAX,
    ensures
        binds(facts_of(t, file, found, on_self), t.text(n), t.start(n), BindingKind::Param),
        t.child(p, "type"@) matches Some(ty)
            ==> binds_as(
                facts_of(t, file, found, on_self),
                t.text(n),
                t.start(n),
                BindingKind::Param,
                simple_name(t.text(ty), "."@),
            ),
{
    introduced_kinds();
    let b = local_binding(
        facts_of(t, file, found, on_self).scopes,
        t.text(n),
        t.start(n),
        BindingKind::Param,
        written_type(t, p),
    );
    assert(param_at(t, facts_of(t, file, found, on_self).scopes, p)[0] == b);
    params_in_has(t, facts_of(t, file, found, on_self).scopes, list + 1, t.after(list), p, b);
    let scopes = facts_of(t, file, found, on_self).scopes;
    let x = local_binding(scopes, t.text(n), t.start(n), BindingKind::Param, written_type(t, p));
    bindings_reported(t, file, found, on_self, i, x);
    local_is_bound(
        facts_of(t, file, found, on_self),
        t.text(n),
        t.start(n),
        BindingKind::Param,
        written_type(t, p),
    );
}

/// Each variable that is declared inside a function and has a name that is long
/// enough is bound in the innermost scope at its place. It has the type that it
/// is declared with.
pub proof fn locals_are_bound(
    t: Syntax,
    file: Seq<char>,
    found: Seq<Seq<CaptureView>>,
    on_self: Seq<Seq<CaptureView>>,
    i: int,
    list: int,
    d: int,
    n: int,
)
    requires
        t.nested(),
        0 <= i < t.after(0),
        t.kind(i) == "local_declaration_statement"@,
        t.has_child(i, list),
        t.kind(list) == "variable_declaration"@,
        t.has_child(list, d),
        t.kind(d) == "variable_declarator"@,
        t.child_of_kind(d, "identifier"@) == Some(n),
        long_enough(t.text(n)),
        !outside_code(facts_of(t, file, found, on_self).scopes, t.start(n)),
        facts_of(t, file, found, on_self).scopes.len() <= usize::MAX,
    ensures
        binds(facts_of(t, file, found, on_self), t.text(n), t.start(n), BindingKind::Local),
        t.child(list, "type"@) matches Some(ty) ==> t.kind(ty) != "implicit_type"@
            ==> binds_as(
                facts_of(t, file, found, on_self),
                t.text(n),
                t.start(n),
                BindingKind::Local,
                simple_name(t.text(ty), "."@),
            ),
{
    introduced_kinds();
    if at_file_level(facts_of(t, file, found, on_self).scopes, t.start(n)) {
        file_level_is_outside(facts_of(t, file, found, on_self).scopes, t.start(n));
    }
    let b = local_binding(
        facts_of(t, file, found, on_self).scopes,
        t.text(n),
        t.start(n),
        BindingKind::Local,
        declarator_type(t, list, d),
    );
    reached_is_behind(t, i + 1, t.after(i), list);
    assert(local_at(t, facts_of(t, file, found, on_self).scopes, list, d)[0] == b);
    locals_in_has(t, facts_of(t, file, found, on_self).scopes, list, list + 1, t.after(list), d, b);
    declared_in_has(t, facts_of(t, file, found, on_self).scopes, i + 1, t.after(i), list, b);
    let scopes = facts_of(t, file, found, on_self).scopes;
    let x = local_binding(
        scopes,
        t.text(n),
        t.start(n),
        BindingKind::Local,
        declarator_type(t, list, d),
    );
    bindings_reported(t, file, found, on_self, i, x);
    local_is_bound(
        facts_of(t, file, found, on_self),
        t.text(n),
        t.start(n),
        BindingKind::Local,
        declarator_type(t, list, d),
    );
}

/// The variable of a loop over a collection inside a function is bound in the
/// innermost scope at its place.
pub proof fn loop_variables_are_bound(
    t: Syntax,
    file: Seq<char>,
    found: Seq<Seq<CaptureView>>,
    on_self: Seq<Seq<CaptureView>>,
    i: int,
    n: int,
)
    requires
        t.nested(),
        0 <= i < t.after(0),
        t.kind(i) == "foreach_statement"@,
        t.child(i, "left"@) == Some(n),
        t.kind(n) == "identifier"@,
        !outside_code(facts_of(t, file, found, on_self).scopes, t.start(n)),
        facts_of(t, file, found, on_self).scopes.len() <= usize::MAX,
    ensures
        binds(facts_of(t, file, found, on_self), t.text(n), t.start(n), BindingKind::Local),
{
    introduced_kinds();
    if at_file_level(facts_of(t, file, found, on_self).scopes, t.start(n)) {
        file_level_is_outside(facts_of(t, file, found, on_self).scopes, t.start(n));
    }
    let scopes = facts_of(t, file, found, on_self).scopes;
    let x = local_binding(scopes, t.text(n), t.start(n), BindingKind::Local, None);
    assert(introduced(t, scopes, i)[0] == x);
    bindings_reported(t, file, found, on_self, i, x);
    local_is_bound(
        facts_of(t, file, found, on_self),
        t.text(n),
        t.start(n),
        BindingKind::Local,
        None,
    );
}

/// The name of a caught exception is bound as a parameter in the innermost
/// scope at its place.
pub proof fn caught_exceptions_are_bound(
    t: Syntax,
    file: Seq<char>,
    found: Seq<Seq<CaptureView>>,
    on_self: Seq<Seq<CaptureView>>,
    i: int,
    d: int,
    n: int,
)
    requires
        t.nested(),
        0 <= i < t.after(0),
        t.kind(i) == "catch_clause"@,
        t.child_of_kind(i, "catch_declaration"@) == Some(d),
        t.child(d, "name"@) == Some(n),
        facts_of(t, file, found, on_self).scopes.len() <= usize::MAX,
    ensures
        binds(facts_of(t, file, found, on_self), t.text(n), t.start(n), BindingKind::Param),
{
    introduced_kinds();
    let scopes = facts_of(t, file, found, on_self).scopes;
    let x = local_binding(scopes, t.text(n), t.start(n), BindingKind::Param, None);
    assert(introduced(t, scopes, i)[0] == x);
    bindings_reported(t, file, found, on_self, i, x);
    local_is_bound(
        facts_of(t, file, found, on_self),
        t.text(n),
        t.start(n),
        BindingKind::Param,
        None,
    );
}

proof fn first_name(t: Syntax, lo: int, hi: int, n: int)
    requires
        t.reaches(lo, hi, n),
        t.kind(n) == "qualified_name"@ || t.kind(n) == "identifier"@,
        forall|e: int| #[trigger] t.reaches(lo, hi, e) && e < n
            ==> t.kind(e) != "qualified_name"@ && t.kind(e) != "identifier"@,
    ensures
        used_name_in(t, lo, hi) == Some(n),
    decreases hi - lo,
{
    if lo != n {
        reached_is_behind(t, t.next(lo, hi), hi, n);
        assert(t.reaches(lo, hi, lo));
        assert forall|e: int| #[trigger] t.reaches(t.next(lo, hi), hi, e) && e < n implies t.kind(e) != "qualified_name"@ && t.kind(e) != "identifier"@ by {
            assert(t.reaches(lo, hi, e));
        }
        first_name(t, t.next(lo, hi), hi, n);
    }
}

/// A using directive that is neither static nor an alias imports the last piece
/// of a qualified name, from the pieces before, where the last piece stands.
pub proof fn namespaces_are_imported(
    t: Syntax,
    file: Seq<char>,
    found: Seq<Seq<CaptureView>>,
    on_self: Seq<Seq<CaptureView>>,
    i: int,
    n: int,
    m: int,
)
    requires
        t.nested(),
        0 <= i < t.after(0),
        t.kind(i) == "using_directive"@,
        t.child_of_kind(i, "name_equals"@) is None,
        t.child_of_kind(i, "="@) is None,
        t.child_of_kind(i, "static"@) is None,
        t.has_child(i, n),
        forall|e: int| #[trigger] t.has_child(i, e) && e < n
            ==> t.kind(e) != "qualified_name"@ && t.kind(e) != "identifier"@,
        t.kind(n) == "qualified_name"@,
        t.text(n).contains('.'),
        t.child(n, "name"@) == Some(m) || (t.child(n, "name"@) is None && m == n),
        forall|j: int, k: int| t.has(j) && t.kind(j) == "using_directive"@
            && j < k < #[trigger] t.after(j)
            ==> #[trigger] t.kind(k) != "using_directive"@,
    ensures
        imports(
            facts_of(t, file, found, on_self),
            t,
            m,
            after_last(t.text(n), '.'),
            if before_last(t.text(n), '.').len() > 0 { Some(before_last(t.text(n), '.')) } else { None },
        ),
{
    assert forall|e: int| #[trigger] t.reaches(i + 1, t.after(i), e) && e < n implies t.kind(e) != "qualified_name"@ && t.kind(e) != "identifier"@ by {
        assert(t.has_child(i, e));
    }
    first_name(t, i + 1, t.after(i), n);
    last_index_tells(t.text(n), '.');
    let x = import_of(t, file, own_module(t, file), i)[0];
    assert(import_of(t, file, own_module(t, file), i)[0] == x);
    imports_reported(t, file, found, on_self, i, x);
}

/// A using directive that is neither static nor an alias imports a plain name,
/// from nowhere.
pub proof fn plain_namespaces_are_imported(
    t: Syntax,
    file: Seq<char>,
    found: Seq<Seq<CaptureView>>,
    on_self: Seq<Seq<CaptureView>>,
    i: int,
    n: int,
)
    requires
        t.nested(),
        0 <= i < t.after(0),
        t.kind(i) == "using_directive"@,
        t.child_of_kind(i, "name_equals"@) is None,
        t.child_of_kind(i, "="@) is None,
        t.child_of_kind(i, "static"@) is None,
        t.has_child(i, n),
        forall|e: int| #[trigger] t.has_child(i, e) && e < n
            ==> t.kind(e) != "qualified_name"@ && t.kind(e) != "identifier"@,
        t.kind(n) == "identifier"@ || (t.kind(n) == "qualified_name"@ && !t.text(n).contains('.')),
        forall|j: int, k: int| t.has(j) && t.kind(j) == "using_directive"@
            && j < k < #[trigger] t.after(j)
            ==> #[trigger] t.kind(k) != "using_directive"@,
    ensures
        imports(facts_of(t, file, found, on_self), t, n, t.text(n), None),
{
    used_name_in_kinds();
    assert forall|e: int| #[trigger] t.reaches(i + 1, t.after(i), e) && e < n implies t.kind(e) != "qualified_name"@ && t.kind(e) != "identifier"@ by {
        assert(t.has_child(i, e));
    }
    first_name(t, i + 1, t.after(i), n);
    last_index_tells(t.text(n), '.');
    let x = import_of(t, file, own_module(t, file), i)[0];
    assert(import_of(t, file, own_module(t, file), i)[0] == x);
    imports_reported(t, file, found, on_self, i, x);
}

// ── Scopes ───────────────────────────────────────────────────────────────────

/// Whether a node opens a scope for what stands in it.
pub open spec fn is_holder(t: Syntax, k: int) -> bool {
    ||| t.kind(k) == "namespace_declaration"@
    ||| t.kind(k) == "file_scoped_namespace_declaration"@
    ||| t.kind(k) == "class_declaration"@
    ||| t.kind(k) == "struct_declaration"@
    ||| t.kind(k) == "interface_declaration"@
    ||| t.kind(k) == "enum_declaration"@
    ||| t.kind(k) == "record_declaration"@
    ||| t.kind(k) == "method_declaration"@
    ||| t.kind(k) == "constructor_declaration"@
}

/// The kind of the scope that a node opens.
pub open spec fn scope_kind(t: Syntax, k: int) -> ScopeKind {
    if t.kind(k) == "namespace_declaration"@ || t.kind(k) == "file_scoped_namespace_declaration"@ {
        ScopeKind::Module
    } else if t.kind(k) == "class_declaration"@ || t.kind(k) == "struct_declaration"@
        || t.kind(k) == "interface_declaration"@ || t.kind(k) == "enum_declaration"@
        || t.kind(k) == "record_declaration"@ {
        ScopeKind::Type
    } else if t.kind(k) == "method_declaration"@ || t.kind(k) == "constructor_declaration"@ {
        ScopeKind::Function
    } else {
        ScopeKind::Block
    }
}

/// Whether a node is the body of a holder.
pub open spec fn is_held(t: Syntax, k: int) -> bool {
    exists|p: int| #![trigger t.child(p, "body"@)] 0 <= p < k && is_holder(t, p)
        && t.child(p, "body"@) == Some(k)
}

/// Whether a node opens a scope of its own: a holder, or a block that is not the
/// body of one.
pub open spec fn opens(t: Syntax, k: int) -> bool {
    (is_holder(t, k) || t.kind(k) == "block"@) && !is_held(t, k)
}

/// Whether node `j` stands in the body of the holder `k`.
pub open spec fn is_inside(t: Syntax, k: int, j: int) -> bool {
    t.child(k, "body"@) matches Some(b) && b < j < t.after(b)
}

/// Whether `outer` is the innermost node from `from` on that opens a scope around
/// node `j`.
pub open spec fn is_nearest(t: Syntax, from: int, j: int, outer: Option<int>) -> bool {
    match outer {
        Some(a) => from <= a < j && j < t.after(a) && opens(t, a) && forall|k: int| a < k < j
            && j < #[trigger] t.after(k)
            ==> !opens(t, k),
        None => forall|k: int| from <= k < j && j < #[trigger] t.after(k) ==> !opens(t, k),
    }
}

proof fn scopes_are_kept(t: Syntax, i: int, parent: ScopeId, scopes: Seq<Scope>)
    ensures
        extends(scopes_with(t, i, parent, scopes), scopes),
        t.has(i) && (is_holder(t, i) || t.kind(i) == "block"@)
            ==> extends(
                scopes_with(t, i, parent, scopes),
                scopes.push(
                    Scope { parent: Some(parent), span: span_at(t, i), kind: scope_kind(t, i) },
                ),
            ),
    decreases t.left(i), 0nat,
{
    if t.has(i) {
        scopes_with_kinds();
        let opened = scopes.push(
            Scope { parent: Some(parent), span: span_at(t, i), kind: scope_kind(t, i) },
        );
        let id = scopes.len() as usize;
        if is_holder(t, i) {
            if let Some(body) = t.child(i, "body"@) {
                scopes_are_kept_in(t, body + 1, t.after(body), id, opened);
            }
        } else if t.kind(i) == "block"@ {
            scopes_are_kept_in(t, i + 1, t.after(i), id, opened);
        } else {
            scopes_are_kept_in(t, i + 1, t.after(i), parent, scopes);
        }
    }
}

proof fn scopes_are_kept_in(t: Syntax, lo: int, hi: int, parent: ScopeId, scopes: Seq<Scope>)
    ensures
        extends(scopes_with_all(t, lo, hi, parent, scopes), scopes),
    decreases t.left(lo), 1nat,
{
    if lo < hi && t.has(lo) {
        scopes_are_kept(t, lo, parent, scopes);
        scopes_are_kept_in(t, t.next(lo, hi), hi, parent, scopes_with(t, lo, parent, scopes));
    }
}

proof fn scope_is_opened(
    t: Syntax,
    i: int,
    parent: ScopeId,
    scopes: Seq<Scope>,
    j: int,
    outer: Option<int>,
)
    requires
        t.nested(),
        t.linked(),
        t.has(i),
        i <= j < t.after(i),
        forall|k: int| #[trigger] is_holder(t, k) ==> !is_held(t, k),
        opens(t, j),
        !is_held(t, i),
        forall|k: int| i <= k < j && j < #[trigger] t.after(k) && is_holder(t, k)
            ==> is_inside(t, k, j),
        is_nearest(t, i, j, outer),
        scopes_with(t, i, parent, scopes).len() <= usize::MAX,
    ensures
        opens_scope(
            scopes_with(t, i, parent, scopes),
            scopes.len() as int,
            t,
            j,
            scope_kind(t, j),
            parent,
            outer,
        ),
    decreases t.left(i), 0nat,
{
    scopes_with_kinds();
    let opened = scopes.push(
        Scope { parent: Some(parent), span: span_at(t, i), kind: scope_kind(t, i) },
    );
    let id = scopes.len() as usize;
    let after = scopes_with(t, i, parent, scopes);
    scopes_are_kept(t, i, parent, scopes);
    if i == j {
        assert(after[scopes.len() as int] == opened[scopes.len() as int]);
    } else {
        let inner = if outer == Some(i) { None } else { outer };
        if is_holder(t, i) {
            assert(opens(t, i));
            assert(after[id as int] == opened[id as int]);
            assert(is_inside(t, i, j));
            let b = t.child(i, "body"@)->0;
            field_is_child(t, i, "body"@);
            assert(is_held(t, b));
            assert forall|k: int| i < k < j && j < #[trigger] t.after(k) implies k >= b by {
                if k < b {
                    earlier_ends_before(t, i + 1, t.after(i), b, k);
                }
            }
            assert forall|c: int| #[trigger] t.reaches(b + 1, t.after(b), c) implies !is_held(t, c) by {
                assert(t.has_child(b, c));
                if is_held(t, c) {
                    let p = choose|p: int| #![trigger t.child(p, "body"@)] 0 <= p < c
                        && is_holder(t, p) && t.child(p, "body"@) == Some(c);
                    field_is_child(t, p, "body"@);
                }
            }
            scope_is_opened_in(t, b + 1, t.after(b), id, opened, j, inner);
            scope_is_within(after, t, i, j, scope_kind(t, j), id, parent, inner, outer);
        } else if t.kind(i) == "block"@ {
            assert(opens(t, i));
            assert(after[id as int] == opened[id as int]);
            assert forall|c: int| #[trigger] t.reaches(i + 1, t.after(i), c) implies !is_held(t, c) by {
                assert(t.has_child(i, c));
                if is_held(t, c) {
                    let p = choose|p: int| #![trigger t.child(p, "body"@)] 0 <= p < c
                        && is_holder(t, p) && t.child(p, "body"@) == Some(c);
                    field_is_child(t, p, "body"@);
                }
            }
            scope_is_opened_in(t, i + 1, t.after(i), id, opened, j, inner);
            scope_is_within(after, t, i, j, scope_kind(t, j), id, parent, inner, outer);
        } else {
            assert(!opens(t, i));
            assert forall|c: int| #[trigger] t.reaches(i + 1, t.after(i), c) implies !is_held(t, c) by {
                assert(t.has_child(i, c));
                if is_held(t, c) {
                    let p = choose|p: int| #![trigger t.child(p, "body"@)] 0 <= p < c
                        && is_holder(t, p) && t.child(p, "body"@) == Some(c);
                    field_is_child(t, p, "body"@);
                }
            }
            scope_is_opened_in(t, i + 1, t.after(i), parent, scopes, j, outer);
        }
    }
}

proof fn scope_is_opened_in(
    t: Syntax,
    lo: int,
    hi: int,
    parent: ScopeId,
    scopes: Seq<Scope>,
    j: int,
    outer: Option<int>,
)
    requires
        t.nested(),
        t.linked(),
        t.closed_range(lo, hi),
        lo <= j < hi,
        forall|k: int| #[trigger] is_holder(t, k) ==> !is_held(t, k),
        opens(t, j),
        forall|c: int| #[trigger] t.reaches(lo, hi, c) ==> !is_held(t, c),
        forall|k: int| lo <= k < j && j < #[trigger] t.after(k) && is_holder(t, k)
            ==> is_inside(t, k, j),
        is_nearest(t, lo, j, outer),
        scopes_with_all(t, lo, hi, parent, scopes).len() <= usize::MAX,
    ensures
        opens_scope(
            scopes_with_all(t, lo, hi, parent, scopes),
            scopes.len() as int,
            t,
            j,
            scope_kind(t, j),
            parent,
            outer,
        ),
    decreases t.left(lo), 1nat,
{
    let next = t.next(lo, hi);
    assert(t.reaches(lo, hi, lo));
    assert forall|c: int| #[trigger] t.reaches(next, hi, c) implies t.reaches(lo, hi, c) by {}
    let first = scopes_with(t, lo, parent, scopes);
    let all = scopes_with_all(t, lo, hi, parent, scopes);
    scopes_are_kept(t, lo, parent, scopes);
    scopes_are_kept_in(t, next, hi, parent, first);
    if j < t.after(lo) {
        scope_is_opened(t, lo, parent, scopes, j, outer);
        opens_scope_stays(
            first,
            all,
            scopes.len() as int,
            scopes.len() as int,
            t,
            j,
            scope_kind(t, j),
            parent,
            outer,
        );
    } else {
        nearest_is_later(t, lo, next, j, outer);
        scope_is_opened_in(t, next, hi, parent, first, j, outer);
        opens_scope_stays(
            all,
            all,
            first.len() as int,
            scopes.len() as int,
            t,
            j,
            scope_kind(t, j),
            parent,
            outer,
        );
    }
}

proof fn nearest_is_later(t: Syntax, lo: int, next: int, j: int, outer: Option<int>)
    requires
        t.nested(),
        0 <= lo < t.len(),
        next == t.after(lo),
        next <= j,
        is_nearest(t, lo, j, outer),
    ensures
        is_nearest(t, next, j, outer),
{
    if let Some(a) = outer {
        if a < next {
            assert(t.after(a) <= t.after(lo));
        }
    }
}

/// A namespace, a type, a method and a constructor open a scope of their own,
/// and so does each block that is not the body of one, where only bodies lie
/// around it. Its parent is the scope of the innermost of these around it, or
/// that of the file.
pub proof fn scopes_are_opened(
    t: Syntax,
    file: Seq<char>,
    found: Seq<Seq<CaptureView>>,
    on_self: Seq<Seq<CaptureView>>,
    j: int,
    outer: Option<int>,
)
    requires
        t.nested(),
        t.linked(),
        1 <= j < t.after(0),
        opens(t, j),
        forall|k: int| 1 <= k < j && j < #[trigger] t.after(k) && is_holder(t, k)
            ==> is_inside(t, k, j),
        forall|k: int| #[trigger] is_holder(t, k) ==> !is_held(t, k),
        !is_holder(t, 0),
        is_nearest(t, 1, j, outer),
        facts_of(t, file, found, on_self).scopes.len() <= usize::MAX,
    ensures
        opens_scope(facts_of(t, file, found, on_self).scopes, 1, t, j, scope_kind(t, j), 0, outer),
{
    let first = seq![module_scope(byte_count(t.source) as int)];
    assert forall|c: int| #[trigger] t.reaches(1, t.after(0), c) implies !is_held(t, c) by {
                assert(t.has_child(0, c));
                if is_held(t, c) {
                    let p = choose|p: int| #![trigger t.child(p, "body"@)] 0 <= p < c
                        && is_holder(t, p) && t.child(p, "body"@) == Some(c);
                    field_is_child(t, p, "body"@);
                }
            }
    scope_is_opened_in(t, 1, t.after(0), 0, first, j, outer);
}

// ── Modules ──────────────────────────────────────────────────────────────────

/// The namespaces that the path of a file gives it.
spec fn path_namespaces(file: Seq<char>) -> Seq<Seq<char>> {
    let stem = without_suffix(file, ".cs"@);
    segments(without_prefix(stem, "src/"@), '/')
}

proof fn path_gives_namespaces(root: Seq<char>, parts: Seq<Seq<char>>, ext: Seq<char>)
    requires
        parts.len() > 0,
        are_parts(parts, '/'),
        ext == ".cs"@,
        root == "src/"@ || (root.len() == 0 && !has_prefix(join(parts, '/'), "src/"@)),
    ensures
        path_namespaces(root + join(parts, '/') + ext) == parts,
{
    reveal_strlit(".cs");
    reveal_strlit("src/");
    let body = join(parts, '/');
    let stem = root + body;
    joined_comes_apart(parts, '/');
    own_suffix(stem, ext);
    prefix_comes_off(root, body);
    if root == "src/"@ {
    }
    if root.len() == 0 {
        assert(stem =~= body);
    }
}

/// The module of a C# file that declares no namespace has the pieces of the
/// path of the file as its names, without `src/` in front and without the
/// extension.
pub proof fn paths_name_modules(
    t: Syntax,
    file: Seq<char>,
    found: Seq<Seq<CaptureView>>,
    on_self: Seq<Seq<CaptureView>>,
    root: Seq<char>,
    parts: Seq<Seq<char>>,
    ext: Seq<char>,
)
    requires
        parts.len() > 0,
        are_parts(parts, '/'),
        ext == ".cs"@,
        root == "src/"@ || (root.len() == 0 && !has_prefix(join(parts, '/'), "src/"@)),
        file == root + join(parts, '/') + ext,
        forall|e: int| #[trigger] t.reaches(1, t.after(0), e) ==> !is_namespace(t, e),
    ensures
        is_module(facts_of(t, file, found, on_self), parts),
{
    none_is_declared(t, 1, t.after(0));
    path_gives_namespaces(root, parts, ext);
}

proof fn none_is_declared(t: Syntax, lo: int, hi: int)
    requires
        forall|e: int| #[trigger] t.reaches(lo, hi, e) ==> !is_namespace(t, e),
    ensures
        declared_namespace(t, lo, hi) is None,
    decreases hi - lo,
{
    if lo < hi {
        assert(t.reaches(lo, hi, lo));
        assert forall|e: int| #[trigger] t.reaches(t.next(lo, hi), hi, e) implies !is_namespace(t, e) by {
            assert(t.reaches(lo, hi, e));
        }
        none_is_declared(t, t.next(lo, hi), hi);
    }
}

proof fn first_namespace(t: Syntax, lo: int, hi: int, p: int, n: int)
    requires
        t.reaches(lo, hi, p),
        is_namespace(t, p),
        t.child(p, "name"@) == Some(n),
        forall|e: int| #[trigger] t.reaches(lo, hi, e) && e < p ==> !is_namespace(t, e),
    ensures
        declared_namespace(t, lo, hi) == Some(t.text(n)),
    decreases hi - lo,
{
    if lo != p {
        reached_is_behind(t, t.next(lo, hi), hi, p);
        assert(t.reaches(lo, hi, lo));
        assert forall|e: int| #[trigger] t.reaches(t.next(lo, hi), hi, e) && e < p implies !is_namespace(t, e) by {
            assert(t.reaches(lo, hi, e));
        }
        first_namespace(t, t.next(lo, hi), hi, p, n);
    }
}

/// The module of a C# file has the pieces of the namespace that the file
/// declares first as its names.
pub proof fn namespaces_name_modules(
    t: Syntax,
    file: Seq<char>,
    found: Seq<Seq<CaptureView>>,
    on_self: Seq<Seq<CaptureView>>,
    p: int,
    n: int,
    parts: Seq<Seq<char>>,
)
    requires
        parts.len() > 0,
        are_parts(parts, '.'),
        t.has_child(0, p),
        is_namespace(t, p),
        forall|e: int| #[trigger] t.has_child(0, e) && e < p ==> !is_namespace(t, e),
        t.child(p, "name"@) == Some(n),
        t.text(n) == join(parts, '.'),
    ensures
        is_module(facts_of(t, file, found, on_self), parts),
{
    joined_comes_apart(parts, '.');
    assert forall|e: int| #[trigger] t.reaches(1, t.after(0), e) && e < p implies !is_namespace(t, e) by {
        assert(t.has_child(0, e));
    }
    first_namespace(t, 1, t.after(0), p, n);
}

/// Each definition of a file stands in the module of the file where the file is
/// in a namespace: its identity extends that of the module.
pub proof fn definitions_stand_in_modules(
    t: Syntax,
    file: Seq<char>,
    found: Seq<Seq<CaptureView>>,
    on_self: Seq<Seq<CaptureView>>,
    k: int,
)
    requires
        0 <= k < facts_of(t, file, found, on_self).symbols.len() - 1,
        namespaces_of(t, file).len() > 0,
    ensures
        extends_module(facts_of(t, file, found, on_self), k),
{
    let c = context(t, file);
    let prefix = steps(t, file);
    let f = facts_of(t, file, found, on_self);
    definitions_belong(c, prefix, false, 1, t.after(0));
    let defs = types_in(c, prefix, false, 1, t.after(0));
    assert(f.symbols[k] == defs[k]);
    assert(f.symbols.last() == f.symbols[f.symbols.len() - 1]);
    assert(is_defined(c, prefix, defs[k]));
    assert(belongs(c, prefix, defs[k]));
}

// ── Nothing else is read or written ──────────────────────────────────────────

/// Whether the identifier `i` below `p` stands as a value: it is not called, assigned
/// to or introduced there.
pub open spec fn is_value_below(t: Syntax, p: int, i: int) -> bool {
    &&& !(t.child(p, "type"@) == Some(i))
    &&& !(t.child(p, "returns"@) == Some(i))
    &&& t.kind(p) == "invocation_expression"@ ==> !(t.child(p, "function"@) == Some(i))
    &&& t.kind(p) == "method_declaration"@ ==> !(t.child(p, "name"@) == Some(i))
    &&& t.kind(p) == "constructor_declaration"@ ==> !(t.child(p, "name"@) == Some(i))
    &&& t.kind(p) == "destructor_declaration"@ ==> !(t.child(p, "name"@) == Some(i))
    &&& t.kind(p) == "property_declaration"@ ==> !(t.child(p, "name"@) == Some(i))
    &&& t.kind(p) == "event_declaration"@ ==> !(t.child(p, "name"@) == Some(i))
    &&& t.kind(p) == "delegate_declaration"@ ==> !(t.child(p, "name"@) == Some(i))
    &&& t.kind(p) == "class_declaration"@ ==> !(t.child(p, "name"@) == Some(i))
    &&& t.kind(p) == "struct_declaration"@ ==> !(t.child(p, "name"@) == Some(i))
    &&& t.kind(p) == "interface_declaration"@ ==> !(t.child(p, "name"@) == Some(i))
    &&& t.kind(p) == "enum_declaration"@ ==> !(t.child(p, "name"@) == Some(i))
    &&& t.kind(p) == "record_declaration"@ ==> !(t.child(p, "name"@) == Some(i))
    &&& t.kind(p) == "namespace_declaration"@ ==> !(t.child(p, "name"@) == Some(i))
    &&& t.kind(p) == "file_scoped_namespace_declaration"@ ==> !(t.child(p, "name"@) == Some(i))
    &&& t.kind(p) == "local_function_statement"@ ==> !(t.child(p, "name"@) == Some(i))
    &&& t.kind(p) == "type_parameter"@ ==> !(t.child(p, "name"@) == Some(i))
    &&& t.kind(p) == "enum_member_declaration"@ ==> !(t.child(p, "name"@) == Some(i))
    &&& t.kind(p) == "variable_declarator"@ ==> !(t.child(p, "name"@) == Some(i))
    &&& t.kind(p) == "parameter"@ ==> !(t.child(p, "name"@) == Some(i))
    &&& t.kind(p) == "catch_declaration"@ ==> !(t.child(p, "name"@) == Some(i))
    &&& t.kind(p) == "member_access_expression"@ ==> !(t.child(p, "name"@) == Some(i))
    &&& t.kind(p) == "generic_name"@ ==> !(t.child_of_kind(p, "identifier"@) == Some(i))
    &&& t.kind(p) == "assignment_expression"@ ==> !(t.child(p, "left"@) == Some(i))
    &&& t.kind(p) == "foreach_statement"@ ==> !(t.child(p, "left"@) == Some(i))
    &&& t.kind(p) == "using_directive"@ ==> false
    &&& t.kind(p) == "qualified_name"@ ==> false
    &&& t.kind(p) == "base_list"@ ==> false
    &&& t.kind(p) == "type_argument_list"@ ==> false
}

/// Each read of a file is of an identifier that is long enough and stands as a
/// value.
pub proof fn reads_are_values(t: Syntax, file: Seq<char>, k: int) -> (at: (int, int))
    requires
        t.nested(),
        t.has(0),
        identifiers_apart(t),
        0 <= k < reads_at(t, file, 0).len(),
    ensures
        0 <= at.1 < t.after(0),
        t.kind(at.1) == "identifier"@,
        long_enough(t.text(at.1)),
        t.parent(at.1) == Some(at.0),
        is_value_below(t, at.0, at.1),
        reads_at(t, file, 0)[k] == reference_at(t, file, at.1, t.text(at.1), RefRole::Read),
{
    reads_are_sound(t, file, k);
    let i = choose|i: int| 0 <= i < t.after(0) && #[trigger] is_read(t, i)
        && reads_at(t, file, 0)[k] == reference_at(t, file, i, t.text(i), RefRole::Read);
    let p = t.parent(i)->0;
    read_is_value(t, p, i);
    (p, i)
}

proof fn read_is_value(t: Syntax, p: int, i: int)
    requires
        t.parent(i) == Some(p),
        !not_read(t, i),
    ensures
        is_value_below(t, p, i),
{
    read_kinds();
}

#[verifier::rlimit(50)]
proof fn read_kinds()
    ensures
        "invocation_expression"@ != "member_access_expression"@,
        "invocation_expression"@ != "generic_name"@,
        "invocation_expression"@ != "assignment_expression"@,
        "invocation_expression"@ != "foreach_statement"@,
        "invocation_expression"@ != "using_directive"@,
        "invocation_expression"@ != "qualified_name"@,
        "invocation_expression"@ != "base_list"@,
        "invocation_expression"@ != "type_argument_list"@,
        "invocation_expression"@ != "method_declaration"@,
        "invocation_expression"@ != "constructor_declaration"@,
        "invocation_expression"@ != "destructor_declaration"@,
        "invocation_expression"@ != "property_declaration"@,
        "invocation_expression"@ != "event_declaration"@,
        "invocation_expression"@ != "delegate_declaration"@,
        "invocation_expression"@ != "class_declaration"@,
        "invocation_expression"@ != "struct_declaration"@,
        "invocation_expression"@ != "interface_declaration"@,
        "invocation_expression"@ != "enum_declaration"@,
        "invocation_expression"@ != "record_declaration"@,
        "invocation_expression"@ != "namespace_declaration"@,
        "invocation_expression"@ != "file_scoped_namespace_declaration"@,
        "invocation_expression"@ != "local_function_statement"@,
        "invocation_expression"@ != "type_parameter"@,
        "invocation_expression"@ != "enum_member_declaration"@,
        "invocation_expression"@ != "variable_declarator"@,
        "invocation_expression"@ != "parameter"@,
        "invocation_expression"@ != "catch_declaration"@,
        "method_declaration"@ != "member_access_expression"@,
        "method_declaration"@ != "generic_name"@,
        "method_declaration"@ != "assignment_expression"@,
        "method_declaration"@ != "foreach_statement"@,
        "method_declaration"@ != "using_directive"@,
        "method_declaration"@ != "qualified_name"@,
        "method_declaration"@ != "base_list"@,
        "method_declaration"@ != "type_argument_list"@,
        "method_declaration"@ != "constructor_declaration"@,
        "method_declaration"@ != "destructor_declaration"@,
        "method_declaration"@ != "property_declaration"@,
        "method_declaration"@ != "event_declaration"@,
        "method_declaration"@ != "delegate_declaration"@,
        "method_declaration"@ != "class_declaration"@,
        "method_declaration"@ != "struct_declaration"@,
        "method_declaration"@ != "interface_declaration"@,
        "method_declaration"@ != "enum_declaration"@,
        "method_declaration"@ != "record_declaration"@,
        "method_declaration"@ != "namespace_declaration"@,
        "method_declaration"@ != "file_scoped_namespace_declaration"@,
        "method_declaration"@ != "local_function_statement"@,
        "method_declaration"@ != "type_parameter"@,
        "method_declaration"@ != "enum_member_declaration"@,
        "method_declaration"@ != "variable_declarator"@,
        "method_declaration"@ != "parameter"@,
        "method_declaration"@ != "catch_declaration"@,
        "constructor_declaration"@ != "member_access_expression"@,
        "constructor_declaration"@ != "generic_name"@,
        "constructor_declaration"@ != "assignment_expression"@,
        "constructor_declaration"@ != "foreach_statement"@,
        "constructor_declaration"@ != "using_directive"@,
        "constructor_declaration"@ != "qualified_name"@,
        "constructor_declaration"@ != "base_list"@,
        "constructor_declaration"@ != "type_argument_list"@,
        "constructor_declaration"@ != "destructor_declaration"@,
        "constructor_declaration"@ != "property_declaration"@,
        "constructor_declaration"@ != "event_declaration"@,
        "constructor_declaration"@ != "delegate_declaration"@,
        "constructor_declaration"@ != "class_declaration"@,
        "constructor_declaration"@ != "struct_declaration"@,
        "constructor_declaration"@ != "interface_declaration"@,
        "constructor_declaration"@ != "enum_declaration"@,
        "constructor_declaration"@ != "record_declaration"@,
        "constructor_declaration"@ != "namespace_declaration"@,
        "constructor_declaration"@ != "file_scoped_namespace_declaration"@,
        "constructor_declaration"@ != "local_function_statement"@,
        "constructor_declaration"@ != "type_parameter"@,
        "constructor_declaration"@ != "enum_member_declaration"@,
        "constructor_declaration"@ != "variable_declarator"@,
        "constructor_declaration"@ != "parameter"@,
        "constructor_declaration"@ != "catch_declaration"@,
        "destructor_declaration"@ != "member_access_expression"@,
        "destructor_declaration"@ != "generic_name"@,
        "destructor_declaration"@ != "assignment_expression"@,
        "destructor_declaration"@ != "foreach_statement"@,
        "destructor_declaration"@ != "using_directive"@,
        "destructor_declaration"@ != "qualified_name"@,
        "destructor_declaration"@ != "base_list"@,
        "destructor_declaration"@ != "type_argument_list"@,
        "destructor_declaration"@ != "property_declaration"@,
        "destructor_declaration"@ != "event_declaration"@,
        "destructor_declaration"@ != "delegate_declaration"@,
        "destructor_declaration"@ != "class_declaration"@,
        "destructor_declaration"@ != "struct_declaration"@,
        "destructor_declaration"@ != "interface_declaration"@,
        "destructor_declaration"@ != "enum_declaration"@,
        "destructor_declaration"@ != "record_declaration"@,
        "destructor_declaration"@ != "namespace_declaration"@,
        "destructor_declaration"@ != "file_scoped_namespace_declaration"@,
        "destructor_declaration"@ != "local_function_statement"@,
        "destructor_declaration"@ != "type_parameter"@,
        "destructor_declaration"@ != "enum_member_declaration"@,
        "destructor_declaration"@ != "variable_declarator"@,
        "destructor_declaration"@ != "parameter"@,
        "destructor_declaration"@ != "catch_declaration"@,
        "property_declaration"@ != "member_access_expression"@,
        "property_declaration"@ != "generic_name"@,
        "property_declaration"@ != "assignment_expression"@,
        "property_declaration"@ != "foreach_statement"@,
        "property_declaration"@ != "using_directive"@,
        "property_declaration"@ != "qualified_name"@,
        "property_declaration"@ != "base_list"@,
        "property_declaration"@ != "type_argument_list"@,
        "property_declaration"@ != "event_declaration"@,
        "property_declaration"@ != "delegate_declaration"@,
        "property_declaration"@ != "class_declaration"@,
        "property_declaration"@ != "struct_declaration"@,
        "property_declaration"@ != "interface_declaration"@,
        "property_declaration"@ != "enum_declaration"@,
        "property_declaration"@ != "record_declaration"@,
        "property_declaration"@ != "namespace_declaration"@,
        "property_declaration"@ != "file_scoped_namespace_declaration"@,
        "property_declaration"@ != "local_function_statement"@,
        "property_declaration"@ != "type_parameter"@,
        "property_declaration"@ != "enum_member_declaration"@,
        "property_declaration"@ != "variable_declarator"@,
        "property_declaration"@ != "parameter"@,
        "property_declaration"@ != "catch_declaration"@,
        "event_declaration"@ != "member_access_expression"@,
        "event_declaration"@ != "generic_name"@,
        "event_declaration"@ != "assignment_expression"@,
        "event_declaration"@ != "foreach_statement"@,
        "event_declaration"@ != "using_directive"@,
        "event_declaration"@ != "qualified_name"@,
        "event_declaration"@ != "base_list"@,
        "event_declaration"@ != "type_argument_list"@,
        "event_declaration"@ != "delegate_declaration"@,
        "event_declaration"@ != "class_declaration"@,
        "event_declaration"@ != "struct_declaration"@,
        "event_declaration"@ != "interface_declaration"@,
        "event_declaration"@ != "enum_declaration"@,
        "event_declaration"@ != "record_declaration"@,
        "event_declaration"@ != "namespace_declaration"@,
        "event_declaration"@ != "file_scoped_namespace_declaration"@,
        "event_declaration"@ != "local_function_statement"@,
        "event_declaration"@ != "type_parameter"@,
        "event_declaration"@ != "enum_member_declaration"@,
        "event_declaration"@ != "variable_declarator"@,
        "event_declaration"@ != "parameter"@,
        "event_declaration"@ != "catch_declaration"@,
        "delegate_declaration"@ != "member_access_expression"@,
        "delegate_declaration"@ != "generic_name"@,
        "delegate_declaration"@ != "assignment_expression"@,
        "delegate_declaration"@ != "foreach_statement"@,
        "delegate_declaration"@ != "using_directive"@,
        "delegate_declaration"@ != "qualified_name"@,
        "delegate_declaration"@ != "base_list"@,
        "delegate_declaration"@ != "type_argument_list"@,
        "delegate_declaration"@ != "class_declaration"@,
        "delegate_declaration"@ != "struct_declaration"@,
        "delegate_declaration"@ != "interface_declaration"@,
        "delegate_declaration"@ != "enum_declaration"@,
        "delegate_declaration"@ != "record_declaration"@,
        "delegate_declaration"@ != "namespace_declaration"@,
        "delegate_declaration"@ != "file_scoped_namespace_declaration"@,
        "delegate_declaration"@ != "local_function_statement"@,
        "delegate_declaration"@ != "type_parameter"@,
        "delegate_declaration"@ != "enum_member_declaration"@,
        "delegate_declaration"@ != "variable_declarator"@,
        "delegate_declaration"@ != "parameter"@,
        "delegate_declaration"@ != "catch_declaration"@,
        "class_declaration"@ != "member_access_expression"@,
        "class_declaration"@ != "generic_name"@,
        "class_declaration"@ != "assignment_expression"@,
        "class_declaration"@ != "foreach_statement"@,
        "class_declaration"@ != "using_directive"@,
        "class_declaration"@ != "qualified_name"@,
        "class_declaration"@ != "base_list"@,
        "class_declaration"@ != "type_argument_list"@,
        "class_declaration"@ != "struct_declaration"@,
        "class_declaration"@ != "interface_declaration"@,
        "class_declaration"@ != "enum_declaration"@,
        "class_declaration"@ != "record_declaration"@,
        "class_declaration"@ != "namespace_declaration"@,
        "class_declaration"@ != "file_scoped_namespace_declaration"@,
        "class_declaration"@ != "local_function_statement"@,
        "class_declaration"@ != "type_parameter"@,
        "class_declaration"@ != "enum_member_declaration"@,
        "class_declaration"@ != "variable_declarator"@,
        "class_declaration"@ != "parameter"@,
        "class_declaration"@ != "catch_declaration"@,
        "struct_declaration"@ != "member_access_expression"@,
        "struct_declaration"@ != "generic_name"@,
        "struct_declaration"@ != "assignment_expression"@,
        "struct_declaration"@ != "foreach_statement"@,
        "struct_declaration"@ != "using_directive"@,
        "struct_declaration"@ != "qualified_name"@,
        "struct_declaration"@ != "base_list"@,
        "struct_declaration"@ != "type_argument_list"@,
        "struct_declaration"@ != "interface_declaration"@,
        "struct_declaration"@ != "enum_declaration"@,
        "struct_declaration"@ != "record_declaration"@,
        "struct_declaration"@ != "namespace_declaration"@,
        "struct_declaration"@ != "file_scoped_namespace_declaration"@,
        "struct_declaration"@ != "local_function_statement"@,
        "struct_declaration"@ != "type_parameter"@,
        "struct_declaration"@ != "enum_member_declaration"@,
        "struct_declaration"@ != "variable_declarator"@,
        "struct_declaration"@ != "parameter"@,
        "struct_declaration"@ != "catch_declaration"@,
        "interface_declaration"@ != "member_access_expression"@,
        "interface_declaration"@ != "generic_name"@,
        "interface_declaration"@ != "assignment_expression"@,
        "interface_declaration"@ != "foreach_statement"@,
        "interface_declaration"@ != "using_directive"@,
        "interface_declaration"@ != "qualified_name"@,
        "interface_declaration"@ != "base_list"@,
        "interface_declaration"@ != "type_argument_list"@,
        "interface_declaration"@ != "enum_declaration"@,
        "interface_declaration"@ != "record_declaration"@,
        "interface_declaration"@ != "namespace_declaration"@,
        "interface_declaration"@ != "file_scoped_namespace_declaration"@,
        "interface_declaration"@ != "local_function_statement"@,
        "interface_declaration"@ != "type_parameter"@,
        "interface_declaration"@ != "enum_member_declaration"@,
        "interface_declaration"@ != "variable_declarator"@,
        "interface_declaration"@ != "parameter"@,
        "interface_declaration"@ != "catch_declaration"@,
        "enum_declaration"@ != "member_access_expression"@,
        "enum_declaration"@ != "generic_name"@,
        "enum_declaration"@ != "assignment_expression"@,
        "enum_declaration"@ != "foreach_statement"@,
        "enum_declaration"@ != "using_directive"@,
        "enum_declaration"@ != "qualified_name"@,
        "enum_declaration"@ != "base_list"@,
        "enum_declaration"@ != "type_argument_list"@,
        "enum_declaration"@ != "record_declaration"@,
        "enum_declaration"@ != "namespace_declaration"@,
        "enum_declaration"@ != "file_scoped_namespace_declaration"@,
        "enum_declaration"@ != "local_function_statement"@,
        "enum_declaration"@ != "type_parameter"@,
        "enum_declaration"@ != "enum_member_declaration"@,
        "enum_declaration"@ != "variable_declarator"@,
        "enum_declaration"@ != "parameter"@,
        "enum_declaration"@ != "catch_declaration"@,
        "record_declaration"@ != "member_access_expression"@,
        "record_declaration"@ != "generic_name"@,
        "record_declaration"@ != "assignment_expression"@,
        "record_declaration"@ != "foreach_statement"@,
        "record_declaration"@ != "using_directive"@,
        "record_declaration"@ != "qualified_name"@,
        "record_declaration"@ != "base_list"@,
        "record_declaration"@ != "type_argument_list"@,
        "record_declaration"@ != "namespace_declaration"@,
        "record_declaration"@ != "file_scoped_namespace_declaration"@,
        "record_declaration"@ != "local_function_statement"@,
        "record_declaration"@ != "type_parameter"@,
        "record_declaration"@ != "enum_member_declaration"@,
        "record_declaration"@ != "variable_declarator"@,
        "record_declaration"@ != "parameter"@,
        "record_declaration"@ != "catch_declaration"@,
        "namespace_declaration"@ != "member_access_expression"@,
        "namespace_declaration"@ != "generic_name"@,
        "namespace_declaration"@ != "assignment_expression"@,
        "namespace_declaration"@ != "foreach_statement"@,
        "namespace_declaration"@ != "using_directive"@,
        "namespace_declaration"@ != "qualified_name"@,
        "namespace_declaration"@ != "base_list"@,
        "namespace_declaration"@ != "type_argument_list"@,
        "namespace_declaration"@ != "file_scoped_namespace_declaration"@,
        "namespace_declaration"@ != "local_function_statement"@,
        "namespace_declaration"@ != "type_parameter"@,
        "namespace_declaration"@ != "enum_member_declaration"@,
        "namespace_declaration"@ != "variable_declarator"@,
        "namespace_declaration"@ != "parameter"@,
        "namespace_declaration"@ != "catch_declaration"@,
        "file_scoped_namespace_declaration"@ != "member_access_expression"@,
        "file_scoped_namespace_declaration"@ != "generic_name"@,
        "file_scoped_namespace_declaration"@ != "assignment_expression"@,
        "file_scoped_namespace_declaration"@ != "foreach_statement"@,
        "file_scoped_namespace_declaration"@ != "using_directive"@,
        "file_scoped_namespace_declaration"@ != "qualified_name"@,
        "file_scoped_namespace_declaration"@ != "base_list"@,
        "file_scoped_namespace_declaration"@ != "type_argument_list"@,
        "file_scoped_namespace_declaration"@ != "local_function_statement"@,
        "file_scoped_namespace_declaration"@ != "type_parameter"@,
        "file_scoped_namespace_declaration"@ != "enum_member_declaration"@,
        "file_scoped_namespace_declaration"@ != "variable_declarator"@,
        "file_scoped_namespace_declaration"@ != "parameter"@,
        "file_scoped_namespace_declaration"@ != "catch_declaration"@,
        "local_function_statement"@ != "member_access_expression"@,
        "local_function_statement"@ != "generic_name"@,
        "local_function_statement"@ != "assignment_expression"@,
        "local_function_statement"@ != "foreach_statement"@,
        "local_function_statement"@ != "using_directive"@,
        "local_function_statement"@ != "qualified_name"@,
        "local_function_statement"@ != "base_list"@,
        "local_function_statement"@ != "type_argument_list"@,
        "local_function_statement"@ != "type_parameter"@,
        "local_function_statement"@ != "enum_member_declaration"@,
        "local_function_statement"@ != "variable_declarator"@,
        "local_function_statement"@ != "parameter"@,
        "local_function_statement"@ != "catch_declaration"@,
        "type_parameter"@ != "member_access_expression"@,
        "type_parameter"@ != "generic_name"@,
        "type_parameter"@ != "assignment_expression"@,
        "type_parameter"@ != "foreach_statement"@,
        "type_parameter"@ != "using_directive"@,
        "type_parameter"@ != "qualified_name"@,
        "type_parameter"@ != "base_list"@,
        "type_parameter"@ != "type_argument_list"@,
        "type_parameter"@ != "enum_member_declaration"@,
        "type_parameter"@ != "variable_declarator"@,
        "type_parameter"@ != "parameter"@,
        "type_parameter"@ != "catch_declaration"@,
        "enum_member_declaration"@ != "member_access_expression"@,
        "enum_member_declaration"@ != "generic_name"@,
        "enum_member_declaration"@ != "assignment_expression"@,
        "enum_member_declaration"@ != "foreach_statement"@,
        "enum_member_declaration"@ != "using_directive"@,
        "enum_member_declaration"@ != "qualified_name"@,
        "enum_member_declaration"@ != "base_list"@,
        "enum_member_declaration"@ != "type_argument_list"@,
        "enum_member_declaration"@ != "variable_declarator"@,
        "enum_member_declaration"@ != "parameter"@,
        "enum_member_declaration"@ != "catch_declaration"@,
        "variable_declarator"@ != "member_access_expression"@,
        "variable_declarator"@ != "generic_name"@,
        "variable_declarator"@ != "assignment_expression"@,
        "variable_declarator"@ != "foreach_statement"@,
        "variable_declarator"@ != "using_directive"@,
        "variable_declarator"@ != "qualified_name"@,
        "variable_declarator"@ != "base_list"@,
        "variable_declarator"@ != "type_argument_list"@,
        "variable_declarator"@ != "parameter"@,
        "variable_declarator"@ != "catch_declaration"@,
        "parameter"@ != "member_access_expression"@,
        "parameter"@ != "generic_name"@,
        "parameter"@ != "assignment_expression"@,
        "parameter"@ != "foreach_statement"@,
        "parameter"@ != "using_directive"@,
        "parameter"@ != "qualified_name"@,
        "parameter"@ != "base_list"@,
        "parameter"@ != "type_argument_list"@,
        "parameter"@ != "catch_declaration"@,
        "catch_declaration"@ != "member_access_expression"@,
        "catch_declaration"@ != "generic_name"@,
        "catch_declaration"@ != "assignment_expression"@,
        "catch_declaration"@ != "foreach_statement"@,
        "catch_declaration"@ != "using_directive"@,
        "catch_declaration"@ != "qualified_name"@,
        "catch_declaration"@ != "base_list"@,
        "catch_declaration"@ != "type_argument_list"@,
        "member_access_expression"@ != "generic_name"@,
        "member_access_expression"@ != "assignment_expression"@,
        "member_access_expression"@ != "foreach_statement"@,
        "member_access_expression"@ != "using_directive"@,
        "member_access_expression"@ != "qualified_name"@,
        "member_access_expression"@ != "base_list"@,
        "member_access_expression"@ != "type_argument_list"@,
        "generic_name"@ != "assignment_expression"@,
        "generic_name"@ != "foreach_statement"@,
        "generic_name"@ != "using_directive"@,
        "generic_name"@ != "qualified_name"@,
        "generic_name"@ != "base_list"@,
        "generic_name"@ != "type_argument_list"@,
        "assignment_expression"@ != "foreach_statement"@,
        "assignment_expression"@ != "using_directive"@,
        "assignment_expression"@ != "qualified_name"@,
        "assignment_expression"@ != "base_list"@,
        "assignment_expression"@ != "type_argument_list"@,
        "foreach_statement"@ != "using_directive"@,
        "foreach_statement"@ != "qualified_name"@,
        "foreach_statement"@ != "base_list"@,
        "foreach_statement"@ != "type_argument_list"@,
        "using_directive"@ != "qualified_name"@,
        "using_directive"@ != "base_list"@,
        "using_directive"@ != "type_argument_list"@,
        "qualified_name"@ != "base_list"@,
        "qualified_name"@ != "type_argument_list"@,
        "base_list"@ != "type_argument_list"@,
{
    reveal_strlit("invocation_expression");
    reveal_strlit("member_access_expression");
    reveal_strlit("generic_name");
    reveal_strlit("assignment_expression");
    reveal_strlit("foreach_statement");
    reveal_strlit("using_directive");
    reveal_strlit("qualified_name");
    reveal_strlit("base_list");
    reveal_strlit("type_argument_list");
    reveal_strlit("method_declaration");
    reveal_strlit("constructor_declaration");
    reveal_strlit("destructor_declaration");
    reveal_strlit("property_declaration");
    reveal_strlit("event_declaration");
    reveal_strlit("delegate_declaration");
    reveal_strlit("class_declaration");
    reveal_strlit("struct_declaration");
    reveal_strlit("interface_declaration");
    reveal_strlit("enum_declaration");
    reveal_strlit("record_declaration");
    reveal_strlit("namespace_declaration");
    reveal_strlit("file_scoped_namespace_declaration");
    reveal_strlit("local_function_statement");
    reveal_strlit("type_parameter");
    reveal_strlit("enum_member_declaration");
    reveal_strlit("variable_declarator");
    reveal_strlit("parameter");
    reveal_strlit("catch_declaration");
    assert("invocation_expression"@.len() == 21);
    assert("member_access_expression"@.len() == 24);
    assert("generic_name"@.len() == 12);
    assert("assignment_expression"@.len() == 21);
    assert("foreach_statement"@.len() == 17);
    assert("using_directive"@.len() == 15);
    assert("qualified_name"@.len() == 14);
    assert("base_list"@.len() == 9);
    assert("type_argument_list"@.len() == 18);
    assert("method_declaration"@.len() == 18);
    assert("constructor_declaration"@.len() == 23);
    assert("destructor_declaration"@.len() == 22);
    assert("property_declaration"@.len() == 20);
    assert("event_declaration"@.len() == 17);
    assert("delegate_declaration"@.len() == 20);
    assert("class_declaration"@.len() == 17);
    assert("struct_declaration"@.len() == 18);
    assert("interface_declaration"@.len() == 21);
    assert("enum_declaration"@.len() == 16);
    assert("record_declaration"@.len() == 18);
    assert("namespace_declaration"@.len() == 21);
    assert("file_scoped_namespace_declaration"@.len() == 33);
    assert("local_function_statement"@.len() == 24);
    assert("type_parameter"@.len() == 14);
    assert("enum_member_declaration"@.len() == 23);
    assert("variable_declarator"@.len() == 19);
    assert("parameter"@.len() == 9);
    assert("catch_declaration"@.len() == 17);
    assert("invocation_expression"@[0] != "assignment_expression"@[0]);
    assert("invocation_expression"@[2] != "interface_declaration"@[2]);
    assert("invocation_expression"@[0] != "namespace_declaration"@[0]);
    assert("method_declaration"@[0] != "type_argument_list"@[0]);
    assert("method_declaration"@[0] != "struct_declaration"@[0]);
    assert("method_declaration"@[0] != "record_declaration"@[0]);
    assert("constructor_declaration"@[0] != "enum_member_declaration"@[0]);
    assert("property_declaration"@[0] != "delegate_declaration"@[0]);
    assert("event_declaration"@[0] != "foreach_statement"@[0]);
    assert("event_declaration"@[0] != "class_declaration"@[0]);
    assert("event_declaration"@[0] != "catch_declaration"@[0]);
    assert("class_declaration"@[0] != "foreach_statement"@[0]);
    assert("class_declaration"@[1] != "catch_declaration"@[1]);
    assert("struct_declaration"@[0] != "type_argument_list"@[0]);
    assert("struct_declaration"@[0] != "record_declaration"@[0]);
    assert("interface_declaration"@[0] != "assignment_expression"@[0]);
    assert("interface_declaration"@[0] != "namespace_declaration"@[0]);
    assert("record_declaration"@[0] != "type_argument_list"@[0]);
    assert("namespace_declaration"@[0] != "assignment_expression"@[0]);
    assert("local_function_statement"@[0] != "member_access_expression"@[0]);
    assert("type_parameter"@[0] != "qualified_name"@[0]);
    assert("parameter"@[0] != "base_list"@[0]);
    assert("catch_declaration"@[0] != "foreach_statement"@[0]);
}

/// Whether node `n` is an identifier that is long enough and that node `i` assigns to.
pub open spec fn is_assigned(t: Syntax, i: int, n: int) -> bool {
    t.kind(n) == "identifier"@ && long_enough(t.text(n)) && t.kind(i) == "assignment_expression"@
        && t.child(i, "left"@) == Some(n)
}

/// Each write of a file is of an identifier that is long enough and that an
/// assignment assigns to.
pub proof fn writes_are_targets(t: Syntax, file: Seq<char>, k: int) -> (at: (int, int))
    requires
        t.nested(),
        t.has(0),
        0 <= k < writes_at(t, file, 0).len(),
    ensures
        0 <= at.0 < t.after(0),
        is_assigned(t, at.0, at.1),
        writes_at(t, file, 0)[k] == reference_at(t, file, at.1, t.text(at.1), RefRole::Write),
{
    let items = writes_of_nodes(t, file);
    let is_one = |r: ReferenceView| exists|i: int, n: int| 0 <= i < t.after(0)
        && #[trigger] is_assigned(t, i, n)
        && r == reference_at(t, file, n, t.text(n), RefRole::Write);
    writes_in_document_order(t, file, 0);
    assert forall|i: int, e: int| 0 <= i < t.after(0) && 0 <= e < items(i).len() implies is_one(#[trigger] items(i)[e]) by {
        assert(is_assigned(t, i, t.child(i, "left"@)->0));
    }
    in_order_all(items, 0, t.after(0), is_one);
    assert(is_one(writes_at(t, file, 0)[k]));
    choose|i: int, n: int| 0 <= i < t.after(0) && #[trigger] is_assigned(t, i, n)
        && writes_at(t, file, 0)[k] == reference_at(t, file, n, t.text(n), RefRole::Write)
}

// ── Nothing else is defined ──────────────────────────────────────────────────

/// Whether node `i` is of a kind that declares symbols of the kind `kind`.
pub open spec fn declares(t: Syntax, i: int, kind: SymbolKind) -> bool {
    match kind {
        SymbolKind::Class => t.kind(i) == "class_declaration"@
            || t.kind(i) == "record_declaration"@,
        SymbolKind::Struct => t.kind(i) == "struct_declaration"@,
        SymbolKind::Interface => t.kind(i) == "interface_declaration"@,
        SymbolKind::Enum => t.kind(i) == "enum_declaration"@,
        SymbolKind::Method => t.kind(i) == "method_declaration"@
            || t.kind(i) == "constructor_declaration"@ || t.kind(i) == "property_declaration"@,
        SymbolKind::Static => t.kind(i) == "field_declaration"@,
        SymbolKind::Const => t.kind(i) == "enum_member_declaration"@,
        _ => false,
    }
}

/// The characters at which the signature of a symbol of the kind `kind` at node
/// `i` ends.
pub open spec fn stops_at(t: Syntax, i: int, kind: SymbolKind) -> Seq<char> {
    match kind { SymbolKind::Const => "{;,"@, _ => "{;"@ }
}

/// Whether a symbol stands at a node that declares symbols of its kind, and has the
/// words of the node up to where it stops for a signature.
pub open spec fn is_declared_by(c: Ctx, s: SymbolView) -> bool {
    exists|i: int| #![trigger occurrence_at(c.tree, c.file, i)] s.occ == occurrence_at(
        c.tree,
        c.file,
        i,
    )
        && s.span == span_at(c.tree, i) && declares(c.tree, i, s.kind)
        && s.signature == one_line(c.tree.text(i), stops_at(c.tree, i, s.kind))
}

/// Whether all symbols do.
pub open spec fn all_declared(c: Ctx, symbols: Seq<SymbolView>) -> bool {
    forall|k: int| 0 <= k < symbols.len() ==> is_declared_by(c, #[trigger] symbols[k])
}

proof fn declarators_in_declared(
    c: Ctx,
    prefix: Seq<DescriptorView>,
    visibility: Visibility,
    owner: int,
    lo: int,
    hi: int,
)
    requires
        c.tree.kind(owner) == "field_declaration"@,
    ensures
        all_declared(c, declarators_in(c, prefix, visibility, owner, lo, hi)),
    decreases hi - lo,
{
    if lo < hi {
        declarators_in_declared(c, prefix, visibility, owner, c.tree.next(lo, hi), hi);
    }
}

proof fn fields_in_declared(
    c: Ctx,
    prefix: Seq<DescriptorView>,
    visibility: Visibility,
    owner: int,
    lo: int,
    hi: int,
)
    requires
        c.tree.kind(owner) == "field_declaration"@,
    ensures
        all_declared(c, fields_in(c, prefix, visibility, owner, lo, hi)),
    decreases hi - lo,
{
    if lo < hi {
        if c.tree.kind(lo) == "variable_declaration"@ {
            declarators_in_declared(c, prefix, visibility, owner, lo + 1, c.tree.after(lo));
        }
        fields_in_declared(c, prefix, visibility, owner, c.tree.next(lo, hi), hi);
    }
}

proof fn type_at_declared(c: Ctx, prefix: Seq<DescriptorView>, implicit: bool, i: int)
    ensures
        all_declared(c, type_at(c, prefix, implicit, i)),
    decreases c.tree.left(i), 0nat,
{
    let t = c.tree;
    if t.has(i) {
        match (type_kind(t, i), t.field_text(i, "name"@)) {
            (Some(kind), Some(name)) => {
                if let Some(body) = t.child(i, "body"@) {
                    members_in_declared(
                        c,
                        prefix + seq![DescriptorView::Type(name)],
                        kind == SymbolKind::Interface,
                        body + 1,
                        t.after(body),
                    );
                }
            },
            _ => {},
        }
    }
}

proof fn members_in_declared(c: Ctx, prefix: Seq<DescriptorView>, implicit: bool, lo: int, hi: int)
    ensures
        all_declared(c, members_in(c, prefix, implicit, lo, hi)),
    decreases c.tree.left(lo), 1nat,
{
    let t = c.tree;
    if lo < hi && t.has(lo) {
        if !(t.kind(lo) == "method_declaration"@ || t.kind(lo) == "constructor_declaration"@
            || t.kind(lo) == "property_declaration"@) {
            if t.kind(lo) == "field_declaration"@ {
                fields_in_declared(
                    c,
                    prefix,
                    member_visibility(t, lo, implicit),
                    lo,
                    lo + 1,
                    t.after(lo),
                );
            } else if t.kind(lo) != "enum_member_declaration"@ {
                type_at_declared(c, prefix, implicit, lo);
            }
        }
        members_in_declared(c, prefix, implicit, t.next(lo, hi), hi);
    }
}

proof fn definitions_declared(
    c: Ctx,
    prefix: Seq<DescriptorView>,
    implicit: bool,
    lo: int,
    hi: int,
)
    ensures
        all_declared(c, types_in(c, prefix, implicit, lo, hi)),
    decreases c.tree.left(lo), 1nat,
{
    let t = c.tree;
    if lo < hi && t.has(lo) {
        if t.kind(lo) == "namespace_declaration"@
            || t.kind(lo) == "file_scoped_namespace_declaration"@ {
            if let Some(body) = t.child(lo, "body"@) {
                definitions_declared(c, prefix, false, body + 1, t.after(body));
            }
        } else {
            type_at_declared(c, prefix, implicit, lo);
        }
        definitions_declared(c, prefix, implicit, t.next(lo, hi), hi);
    }
}

/// Each definition of a file, but for that of its module, stands at a node that
/// declares symbols of its kind. Its signature is the text of the node on one
/// line, up to where it stops.
pub proof fn definitions_stand_at_declarations(
    t: Syntax,
    file: Seq<char>,
    found: Seq<Seq<CaptureView>>,
    on_self: Seq<Seq<CaptureView>>,
    k: int,
) -> (i: int)
    requires
        0 <= k < facts_of(t, file, found, on_self).symbols.len() - 1,
    ensures
        declares(t, i, facts_of(t, file, found, on_self).symbols[k].kind),
        is_at(facts_of(t, file, found, on_self).symbols[k].occ, file, t, i),
        facts_of(t, file, found, on_self).symbols[k].span.start == t.start(i) as usize,
        facts_of(t, file, found, on_self).symbols[k].span.end == t.end(i) as usize,
        facts_of(t, file, found, on_self).symbols[k].signature == one_line(
            t.text(i),
            stops_at(t, i, facts_of(t, file, found, on_self).symbols[k].kind),
        ),
{
    let c = context(t, file);
    let prefix = steps(t, file);
    let f = facts_of(t, file, found, on_self);
    definitions_declared(c, prefix, false, 1, t.after(0));
    let defs = types_in(c, prefix, false, 1, t.after(0));
    assert(f.symbols[k] == defs[k]);
    assert(is_declared_by(c, defs[k]));
    choose|i: int| #![trigger occurrence_at(t, file, i)] defs[k].occ == occurrence_at(t, file, i)
        && defs[k].span == span_at(t, i) && declares(t, i, defs[k].kind)
        && defs[k].signature == one_line(t.text(i), stops_at(t, i, defs[k].kind))
}

// ── No other type is referred to ─────────────────────────────────────────────

/// Whether node `i` names a type, by the name `name`.
pub open spec fn names_type(t: Syntax, i: int, name: Seq<char>) -> bool {
    (t.kind(i) == "identifier"@ && name == t.text(i))
        || ((t.kind(i) == "qualified_name"@ || t.kind(i) == "generic_name"@) && name == simple_name(t.text(i), "."@))
}

/// Whether a reference is to a type that a node names, and says where it stands.
pub open spec fn is_of_type(t: Syntax, file: Seq<char>, r: ReferenceView) -> bool {
    &&& r.role == RefRole::TypeRef
    &&& r.type_ref_ctx is Some
    &&& exists|i: int| #![trigger occurrence_at(t, file, i)] r.occ == occurrence_at(t, file, i)
        && names_type(t, i, r.name)
}

/// Whether all references are.
pub open spec fn all_of_types(t: Syntax, file: Seq<char>, references: Seq<ReferenceView>) -> bool {
    forall|k: int| 0 <= k < references.len() ==> is_of_type(t, file, #[trigger] references[k])
}

proof fn leaves_at_typed(t: Syntax, file: Seq<char>, ctx: TypeRefContext, i: int)
    ensures
        all_of_types(t, file, leaves_at(t, file, ctx, i)),
    decreases t.left(i), 0nat,
{
    let kind = t.kind(i);
    if !(!t.has(i) || kind == "predefined_type"@ || kind == "void_keyword"@) {
        if kind != "identifier"@ {
            if !(kind == "qualified_name"@ || kind == "generic_name"@) {
                if kind == "nullable_type"@ || kind == "array_type"@ {
                    if let Some(element) = t.named_child(i) {
                        leaves_at_typed(t, file, ctx, element);
                    }
                } else {
                    leaves_in_typed(t, file, ctx, i + 1, t.after(i));
                }
            }
        }
    }
}

proof fn leaves_in_typed(t: Syntax, file: Seq<char>, ctx: TypeRefContext, lo: int, hi: int)
    ensures
        all_of_types(t, file, leaves_in(t, file, ctx, lo, hi)),
    decreases t.left(lo), 1nat,
{
    if lo < hi && t.has(lo) {
        if t.named(lo) {
            leaves_at_typed(t, file, ctx, lo);
        }
        leaves_in_typed(t, file, ctx, t.next(lo, hi), hi);
    }
}

proof fn typed_refs_typed(t: Syntax, file: Seq<char>, ctx: TypeRefContext, field: Seq<char>, i: int)
    ensures
        all_of_types(t, file, typed_refs(t, file, ctx, field, i)),
{
    if let Some(ty) = t.child(i, field) {
        leaves_at_typed(t, file, ctx, ty);
    }
}

proof fn field_types_in_typed(t: Syntax, file: Seq<char>, lo: int, hi: int)
    ensures
        all_of_types(t, file, field_types_in(t, file, lo, hi)),
    decreases hi - lo,
{
    if lo < hi {
        if t.kind(lo) == "variable_declaration"@ {
            typed_refs_typed(t, file, TypeRefContext::Field, "type"@, lo);
        }
        field_types_in_typed(t, file, t.next(lo, hi), hi);
    }
}

proof fn own_type_refs_typed(t: Syntax, file: Seq<char>, i: int)
    ensures
        all_of_types(t, file, own_type_refs(t, file, i)),
{
    let kind = t.kind(i);
    if kind == "method_declaration"@ {
        typed_refs_typed(t, file, TypeRefContext::ReturnType, "returns"@, i);
    } else if kind == "parameter"@ {
        typed_refs_typed(t, file, TypeRefContext::ParameterType, "type"@, i);
    } else if kind == "field_declaration"@ {
        field_types_in_typed(t, file, i + 1, t.after(i));
    } else if kind == "property_declaration"@ {
        typed_refs_typed(t, file, TypeRefContext::Field, "type"@, i);
    }
}

proof fn type_refs_at_typed(t: Syntax, file: Seq<char>, i: int)
    ensures
        all_of_types(t, file, type_refs_at(t, file, i)),
    decreases t.left(i), 0nat,
{
    if t.has(i) {
        own_type_refs_typed(t, file, i);
        type_refs_in_typed(t, file, i + 1, t.after(i));
    }
}

proof fn type_refs_in_typed(t: Syntax, file: Seq<char>, lo: int, hi: int)
    ensures
        all_of_types(t, file, type_refs_in(t, file, lo, hi)),
    decreases t.left(lo), 1nat,
{
    if lo < hi && t.has(lo) {
        type_refs_at_typed(t, file, lo);
        type_refs_in_typed(t, file, t.next(lo, hi), hi);
    }
}

/// Each type reference of a file stands at a node that names a type.
pub proof fn type_references_name_types(t: Syntax, file: Seq<char>, k: int) -> (i: int)
    requires
        0 <= k < type_refs_at(t, file, 0).len(),
    ensures
        type_refs_at(t, file, 0)[k].role == RefRole::TypeRef,
        type_refs_at(t, file, 0)[k].type_ref_ctx is Some,
        is_at(type_refs_at(t, file, 0)[k].occ, file, t, i),
        names_type(t, i, type_refs_at(t, file, 0)[k].name),
{
    type_refs_at_typed(t, file, 0);
    let r = type_refs_at(t, file, 0)[k];
    assert(is_of_type(t, file, r));
    choose|i: int| #![trigger occurrence_at(t, file, i)] r.occ == occurrence_at(t, file, i)
        && names_type(t, i, r.name)
}

// ── All names and places ─────────────────────────────────────────────────────

/// The facts of a file name the file and its language.
pub proof fn facts_name_their_file(
    t: Syntax,
    file: Seq<char>,
    found: Seq<Seq<CaptureView>>,
    on_self: Seq<Seq<CaptureView>>,
)
    ensures
        facts_of(t, file, found, on_self).file == file,
        facts_of(t, file, found, on_self).lang == Language::CSharp.tag(),
{
}

/// Each reference has the last scope of the file that holds its place.
pub proof fn references_have_innermost_scopes(
    t: Syntax,
    file: Seq<char>,
    found: Seq<Seq<CaptureView>>,
    on_self: Seq<Seq<CaptureView>>,
    k: int,
)
    requires
        0 <= k < facts_of(t, file, found, on_self).references.len(),
        facts_of(t, file, found, on_self).scopes.len() <= usize::MAX,
    ensures
        is_scoped(
            facts_of(t, file, found, on_self).scopes,
            facts_of(t, file, found, on_self).references[k],
        ),
{
    place_is_scoped(
        facts_of(t, file, found, on_self).scopes,
        facts_of(t, file, found, on_self).references[k],
    );
}

/// Each definition of a file, but for that of its module, is bound in the scope
/// of the file as a whole.
pub proof fn definitions_are_bound(
    t: Syntax,
    file: Seq<char>,
    found: Seq<Seq<CaptureView>>,
    on_self: Seq<Seq<CaptureView>>,
    k: int,
)
    requires
        0 <= k < facts_of(t, file, found, on_self).symbols.len() - 1,
    ensures
        binds_definition(
            facts_of(t, file, found, on_self),
            facts_of(t, file, found, on_self).symbols[k],
        ),
{
    let f = facts_of(t, file, found, on_self);
    let locals = bindings_at(t, f.scopes, 0);
    let c = context(t, file);
    let prefix = steps(t, file);
    let defs = types_in(c, prefix, false, 1, t.after(0));
    let imported: Seq<BindingView> = imports_bound(f.scopes, f.references);
    assert(f.bindings =~= locals + definitions_bound(defs) + imported);
    assert(f.symbols[k] == defs[k]);
    definition_is_bound(f, locals, defs, imported, k);
}

/// Each import of a file is bound in the innermost scope at its place.
pub proof fn imports_are_bound(
    t: Syntax,
    file: Seq<char>,
    found: Seq<Seq<CaptureView>>,
    on_self: Seq<Seq<CaptureView>>,
    k: int,
)
    requires
        0 <= k < facts_of(t, file, found, on_self).references.len(),
        facts_of(t, file, found, on_self).references[k].role == RefRole::Import,
        facts_of(t, file, found, on_self).scopes.len() <= usize::MAX,
    ensures
        binds_import(
            facts_of(t, file, found, on_self),
            facts_of(t, file, found, on_self).references[k],
        ),
{
    let f = facts_of(t, file, found, on_self);
    let locals = bindings_at(t, f.scopes, 0);
    let c = context(t, file);
    let prefix = steps(t, file);
    let defs = types_in(c, prefix, false, 1, t.after(0));
    imported_is_bound(f, locals, defs, k);
}

/// Each name that a file binds is that of a definition or of an import of the
/// file, or is bound to itself in the innermost scope at its place.
pub proof fn bindings_have_origins(
    t: Syntax,
    file: Seq<char>,
    found: Seq<Seq<CaptureView>>,
    on_self: Seq<Seq<CaptureView>>,
    k: int,
)
    requires
        0 <= k < facts_of(t, file, found, on_self).bindings.len(),
        facts_of(t, file, found, on_self).scopes.len() <= usize::MAX,
    ensures
        has_origin(
            facts_of(t, file, found, on_self),
            facts_of(t, file, found, on_self).bindings[k],
        ),
{
    let f = facts_of(t, file, found, on_self);
    let locals = bindings_at(t, f.scopes, 0);
    let c = context(t, file);
    let prefix = steps(t, file);
    let defs = types_in(c, prefix, false, 1, t.after(0));
    let imported: Seq<BindingView> = imports_bound(f.scopes, f.references);
    assert(f.bindings =~= locals + definitions_bound(defs) + imported);
    locals_are_nested(t, f.scopes, 0);
    bound_has_origin(f, locals, defs, imported, k);
}

// ── Local names are written in the file ──────────────────────────────────────

/// Whether a name is the text of a node at its place.
pub open spec fn is_written(t: Syntax, b: BindingView) -> bool {
    exists|n: int| #![trigger t.text(n)] b.name == t.text(n) && b.intro == t.start(n)
}

/// Whether all names are.
pub open spec fn all_written(t: Syntax, bindings: Seq<BindingView>) -> bool {
    forall|k: int| 0 <= k < bindings.len() ==> is_written(t, #[trigger] bindings[k])
}

proof fn locals_in_written(t: Syntax, scopes: Seq<Scope>, owner: int, lo: int, hi: int)
    ensures
        all_written(t, locals_in(t, scopes, owner, lo, hi)),
    decreases hi - lo,
{
    if lo < hi {
        locals_in_written(t, scopes, owner, t.next(lo, hi), hi);
    }
}

proof fn declared_in_written(t: Syntax, scopes: Seq<Scope>, lo: int, hi: int)
    ensures
        all_written(t, declared_in(t, scopes, lo, hi)),
    decreases hi - lo,
{
    if lo < hi {
        if t.kind(lo) == "variable_declaration"@ {
            locals_in_written(t, scopes, lo, lo + 1, t.after(lo));
        }
        declared_in_written(t, scopes, t.next(lo, hi), hi);
    }
}

proof fn params_in_written(t: Syntax, scopes: Seq<Scope>, lo: int, hi: int)
    ensures
        all_written(t, params_in(t, scopes, lo, hi)),
    decreases hi - lo,
{
    if lo < hi {
        params_in_written(t, scopes, t.next(lo, hi), hi);
    }
}

proof fn introduced_written(t: Syntax, scopes: Seq<Scope>, i: int)
    ensures
        all_written(t, introduced(t, scopes, i)),
{
    let kind = t.kind(i);
    if kind == "method_declaration"@ || kind == "constructor_declaration"@ {
        if let Some(params) = t.child(i, "parameters"@) {
            params_in_written(t, scopes, params + 1, t.after(params));
        }
    } else if kind == "local_declaration_statement"@ {
        declared_in_written(t, scopes, i + 1, t.after(i));
    }
}

proof fn bindings_at_written(t: Syntax, scopes: Seq<Scope>, i: int)
    ensures
        all_written(t, bindings_at(t, scopes, i)),
    decreases t.left(i), 0nat,
{
    if t.has(i) {
        introduced_written(t, scopes, i);
        bindings_in_written(t, scopes, i + 1, t.after(i));
    }
}

proof fn bindings_in_written(t: Syntax, scopes: Seq<Scope>, lo: int, hi: int)
    ensures
        all_written(t, bindings_in(t, scopes, lo, hi)),
    decreases t.left(lo), 1nat,
{
    if lo < hi && t.has(lo) {
        bindings_at_written(t, scopes, lo);
        bindings_in_written(t, scopes, t.next(lo, hi), hi);
    }
}

/// Each local name of a file is the text of a node at its place.
pub proof fn locals_are_written(t: Syntax, scopes: Seq<Scope>, k: int) -> (n: int)
    requires
        0 <= k < bindings_at(t, scopes, 0).len(),
    ensures
        bindings_at(t, scopes, 0)[k].name == t.text(n),
        bindings_at(t, scopes, 0)[k].intro == t.start(n),
{
    bindings_at_written(t, scopes, 0);
    let b = bindings_at(t, scopes, 0)[k];
    assert(is_written(t, b));
    choose|n: int| #![trigger t.text(n)] b.name == t.text(n) && b.intro == t.start(n)
}

// ── Calls ────────────────────────────────────────────────────────────────────

/// Each match with a callee that is long enough and a qualifier is a call with
/// that qualifier, unless it is one on the object itself.
pub proof fn calls_are_reported(
    t: Syntax,
    file: Seq<char>,
    found: Seq<Seq<CaptureView>>,
    on_self: Seq<Seq<CaptureView>>,
    k: int,
    c: CaptureView,
    q: CaptureView,
)
    requires
        0 <= k < found.len(),
        captures(found[k], "callee"@, c),
        long_enough(text_between(t.source, c.start, c.end)),
        captures(found[k], "qualifier"@, q),
        !calls_at(on_self, c.start),
    ensures
        calls_name(
            facts_of(t, file, found, on_self),
            c,
            text_between(t.source, c.start, c.end),
            Some(text_between(t.source, q.start, q.end)),
            false,
        ),
{
    call_is_found(t.source, file, found, k, c);
    let plain = plain_call(t.source, file, found[k]);
    mark_is_found(on_self, c.start);
    marked_call_is_found(t.source, file, found, on_self, plain);
    let r = self_marked(on_self, plain);
    in_either(calls_marked(t.source, file, found, on_self), inherits_at(t, file, 0), r);
    in_either(
        calls_marked(t.source, file, found, on_self) + inherits_at(t, file, 0),
        imports_at(t, file, own_module(t, file), 0),
        r,
    );
    in_either(
        calls_marked(t.source, file, found, on_self) + inherits_at(t, file, 0)
            + imports_at(t, file, own_module(t, file), 0),
        type_refs_at(t, file, 0),
        r,
    );
    in_either(
        calls_marked(t.source, file, found, on_self) + inherits_at(t, file, 0)
            + imports_at(t, file, own_module(t, file), 0) + type_refs_at(t, file, 0),
        reads_at(t, file, 0),
        r,
    );
    in_either(
        calls_marked(t.source, file, found, on_self) + inherits_at(t, file, 0)
            + imports_at(t, file, own_module(t, file), 0) + type_refs_at(t, file, 0)
            + reads_at(t, file, 0),
        writes_at(t, file, 0),
        r,
    );
    is_reported(
        facts_of(t, file, found, on_self),
        references_of(t, file, own_module(t, file), found, on_self),
        r,
    );
}

/// Each match with a callee that is long enough and without a qualifier is a
/// call without one.
pub proof fn plain_calls_are_reported(
    t: Syntax,
    file: Seq<char>,
    found: Seq<Seq<CaptureView>>,
    on_self: Seq<Seq<CaptureView>>,
    k: int,
    c: CaptureView,
)
    requires
        0 <= k < found.len(),
        captures(found[k], "callee"@, c),
        long_enough(text_between(t.source, c.start, c.end)),
        lacks(found[k], "qualifier"@),
        !calls_at(on_self, c.start),
    ensures
        calls_name(
            facts_of(t, file, found, on_self),
            c,
            text_between(t.source, c.start, c.end),
            None,
            false,
        ),
{
    call_is_found(t.source, file, found, k, c);
    let plain = plain_call(t.source, file, found[k]);
    mark_is_found(on_self, c.start);
    marked_call_is_found(t.source, file, found, on_self, plain);
    let r = self_marked(on_self, plain);
    in_either(calls_marked(t.source, file, found, on_self), inherits_at(t, file, 0), r);
    in_either(
        calls_marked(t.source, file, found, on_self) + inherits_at(t, file, 0),
        imports_at(t, file, own_module(t, file), 0),
        r,
    );
    in_either(
        calls_marked(t.source, file, found, on_self) + inherits_at(t, file, 0)
            + imports_at(t, file, own_module(t, file), 0),
        type_refs_at(t, file, 0),
        r,
    );
    in_either(
        calls_marked(t.source, file, found, on_self) + inherits_at(t, file, 0)
            + imports_at(t, file, own_module(t, file), 0) + type_refs_at(t, file, 0),
        reads_at(t, file, 0),
        r,
    );
    in_either(
        calls_marked(t.source, file, found, on_self) + inherits_at(t, file, 0)
            + imports_at(t, file, own_module(t, file), 0) + type_refs_at(t, file, 0)
            + reads_at(t, file, 0),
        writes_at(t, file, 0),
        r,
    );
    is_reported(
        facts_of(t, file, found, on_self),
        references_of(t, file, own_module(t, file), found, on_self),
        r,
    );
}

/// A call that the query on calls on the object itself reports at its place is
/// marked as one, without a qualifier.
pub proof fn calls_on_itself_are_marked(
    t: Syntax,
    file: Seq<char>,
    found: Seq<Seq<CaptureView>>,
    on_self: Seq<Seq<CaptureView>>,
    k: int,
    c: CaptureView,
)
    requires
        0 <= k < found.len(),
        captures(found[k], "callee"@, c),
        long_enough(text_between(t.source, c.start, c.end)),
        calls_at(on_self, c.start),
    ensures
        calls_name(
            facts_of(t, file, found, on_self),
            c,
            text_between(t.source, c.start, c.end),
            None,
            true,
        ),
{
    call_is_found(t.source, file, found, k, c);
    let plain = plain_call(t.source, file, found[k]);
    mark_is_found(on_self, c.start);
    marked_call_is_found(t.source, file, found, on_self, plain);
    let r = self_marked(on_self, plain);
    in_either(calls_marked(t.source, file, found, on_self), inherits_at(t, file, 0), r);
    in_either(
        calls_marked(t.source, file, found, on_self) + inherits_at(t, file, 0),
        imports_at(t, file, own_module(t, file), 0),
        r,
    );
    in_either(
        calls_marked(t.source, file, found, on_self) + inherits_at(t, file, 0)
            + imports_at(t, file, own_module(t, file), 0),
        type_refs_at(t, file, 0),
        r,
    );
    in_either(
        calls_marked(t.source, file, found, on_self) + inherits_at(t, file, 0)
            + imports_at(t, file, own_module(t, file), 0) + type_refs_at(t, file, 0),
        reads_at(t, file, 0),
        r,
    );
    in_either(
        calls_marked(t.source, file, found, on_self) + inherits_at(t, file, 0)
            + imports_at(t, file, own_module(t, file), 0) + type_refs_at(t, file, 0)
            + reads_at(t, file, 0),
        writes_at(t, file, 0),
        r,
    );
    is_reported(
        facts_of(t, file, found, on_self),
        references_of(t, file, own_module(t, file), found, on_self),
        r,
    );
}

} // verus!
