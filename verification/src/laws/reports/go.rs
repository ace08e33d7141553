//! What the facts of Go files tell of their nodes.

use crate::extract::go::{
    assignment_writes, bindings_at, bindings_in, definition, facts_of, function_params,
    import_of, imports_at, imports_in_document_order, imports_of_nodes, introduced, is_spec,
    is_typed, leaves_at, leaves_in, local_at, names_in, namespaces_of, not_read, own_type_refs,
    package_of, param_names_in, params_in, ranged_in, read_of, reads_at,
    reads_in_document_order, reads_of_nodes, references_of, result_refs, results_in,
    scopes_with, scopes_with_all, short_locals_in, spec_parts_in, spec_type, specs_in,
    symbols_at, symbols_in, type_leaf_name, type_leaf_name_in, type_refs_at, type_refs_in,
    type_symbols, typed_name, typed_refs, types_in, value_type, variables_in, write_to,
    writes_at, writes_in_document_order, writes_of_nodes, writes_to,
};
use crate::extract::{
    Ctx, at_file_level, calls, definitions_bound, extends, imports_bound, local_binding,
    module_scope, occurrence_at, reference_at, span_at, type_reference_at,
};
use crate::graph::types::{
    BindingKind, BindingView, EntryPointView, RefRole, ReferenceView, Scope, ScopeId, ScopeKind,
    SymbolKind, SymbolView, TypeRefContext, Visibility,
};
use crate::items::{in_order_all, in_order_each};
use crate::lang::Language;
use crate::laws::go::{definitions_belong, is_defined, is_read, locals_are_nested, reads_are_sound};
use crate::laws::{belongs, identifiers_apart};
use crate::parse::CaptureView;
use crate::symbol::{DescriptorView, method_view, namespace_steps};
use crate::syntax::{Syntax, field_is_child, group_child_bounds};
use crate::text::{byte_count, is_upper, one_line, simple_name, text_between, trimmed_of};
use super::bound::{
    binds_definition, binds_import, bound_has_origin, definition_is_bound, has_origin,
    imported_is_bound, is_scoped, place_is_scoped,
};
use super::calls::{call_is_found, calls_name, captures, lacks, plain_call};
use super::{
    binds, binds_as, child_stands_in_field, defines_as, defines_under, earlier_ends_before,
    extends_module, file_level_is_outside, in_either, is_at, is_below, is_entered, is_reported,
    local_is_bound, long_enough, opens_scope, opens_scope_stays, outside_code,
    reached_is_behind, refers, refers_to_type, reported, scope_is_within, starts_with,
};
use vstd::prelude::*;

verus! {

broadcast use group_child_bounds;

/// What the definitions of a file are read from.
spec fn context(t: Syntax, file: Seq<char>) -> Ctx {
    Ctx { tree: t, file, lang: Language::Go }
}

/// The steps that lead to the definitions of a file.
spec fn steps(t: Syntax, file: Seq<char>) -> Seq<DescriptorView> {
    namespace_steps(namespaces_of(t, file))
}

proof fn symbols_at_kinds()
    ensures
        "function_declaration"@ != "method_declaration"@,
        "function_declaration"@ != "type_declaration"@,
        "function_declaration"@ != "const_declaration"@,
        "function_declaration"@ != "var_declaration"@,
        "method_declaration"@ != "type_declaration"@,
        "method_declaration"@ != "const_declaration"@,
        "method_declaration"@ != "var_declaration"@,
        "type_declaration"@ != "const_declaration"@,
        "type_declaration"@ != "var_declaration"@,
        "type_spec"@ != "function_declaration"@,
        "type_spec"@ != "method_declaration"@,
        "type_spec"@ != "type_declaration"@,
        "type_spec"@ != "const_declaration"@,
        "type_spec"@ != "var_declaration"@,
        "struct_type"@ != "function_declaration"@,
        "struct_type"@ != "method_declaration"@,
        "struct_type"@ != "type_declaration"@,
        "struct_type"@ != "const_declaration"@,
        "struct_type"@ != "var_declaration"@,
        "const_declaration"@ != "var_declaration"@,
        "var_spec"@ != "function_declaration"@,
        "var_spec"@ != "method_declaration"@,
        "var_spec"@ != "type_declaration"@,
        "var_spec"@ != "const_declaration"@,
        "var_spec"@ != "var_declaration"@,
        "var_spec_list"@ != "function_declaration"@,
        "var_spec_list"@ != "method_declaration"@,
        "var_spec_list"@ != "type_declaration"@,
        "var_spec_list"@ != "const_declaration"@,
        "var_spec_list"@ != "var_declaration"@,
{
    reveal_strlit("function_declaration");
    reveal_strlit("method_declaration");
    reveal_strlit("type_declaration");
    reveal_strlit("const_declaration");
    reveal_strlit("var_declaration");
    reveal_strlit("type_spec");
    reveal_strlit("struct_type");
    reveal_strlit("var_spec");
    reveal_strlit("var_spec_list");
    assert("function_declaration"@.len() != "method_declaration"@.len());
    assert("function_declaration"@.len() != "type_declaration"@.len());
    assert("function_declaration"@.len() != "const_declaration"@.len());
    assert("function_declaration"@.len() != "var_declaration"@.len());
    assert("method_declaration"@.len() != "type_declaration"@.len());
    assert("method_declaration"@.len() != "const_declaration"@.len());
    assert("method_declaration"@.len() != "var_declaration"@.len());
    assert("type_declaration"@.len() != "const_declaration"@.len());
    assert("type_declaration"@.len() != "var_declaration"@.len());
    assert("type_spec"@.len() != "function_declaration"@.len());
    assert("type_spec"@.len() != "method_declaration"@.len());
    assert("type_spec"@.len() != "type_declaration"@.len());
    assert("type_spec"@.len() != "const_declaration"@.len());
    assert("type_spec"@.len() != "var_declaration"@.len());
    assert("struct_type"@.len() != "function_declaration"@.len());
    assert("struct_type"@.len() != "method_declaration"@.len());
    assert("struct_type"@.len() != "type_declaration"@.len());
    assert("struct_type"@.len() != "const_declaration"@.len());
    assert("struct_type"@.len() != "var_declaration"@.len());
    assert("const_declaration"@.len() != "var_declaration"@.len());
    assert("var_spec"@.len() != "function_declaration"@.len());
    assert("var_spec"@.len() != "method_declaration"@.len());
    assert("var_spec"@.len() != "type_declaration"@.len());
    assert("var_spec"@.len() != "const_declaration"@.len());
    assert("var_spec"@.len() != "var_declaration"@.len());
    assert("var_spec_list"@.len() != "function_declaration"@.len());
    assert("var_spec_list"@.len() != "method_declaration"@.len());
    assert("var_spec_list"@.len() != "type_declaration"@.len());
    assert("var_spec_list"@.len() != "const_declaration"@.len());
    assert("var_spec_list"@.len() != "var_declaration"@.len());
}

proof fn type_kind_kinds()
    ensures
        "type_declaration"@ != "type_spec"@,
        "type_declaration"@ != "struct_type"@,
        "type_declaration"@ != "interface_type"@,
        "type_spec"@ != "struct_type"@,
        "type_spec"@ != "interface_type"@,
        "struct_type"@ != "interface_type"@,
{
    reveal_strlit("type_declaration");
    reveal_strlit("type_spec");
    reveal_strlit("struct_type");
    reveal_strlit("interface_type");
    assert("type_declaration"@.len() != "type_spec"@.len());
    assert("type_declaration"@.len() != "struct_type"@.len());
    assert("type_declaration"@.len() != "interface_type"@.len());
    assert("type_spec"@.len() != "struct_type"@.len());
    assert("type_spec"@.len() != "interface_type"@.len());
    assert("struct_type"@.len() != "interface_type"@.len());
}

proof fn variables_in_kinds()
    ensures
        "var_declaration"@ != "var_spec_list"@,
        "var_declaration"@ != "var_spec"@,
        "var_spec"@ != "var_spec_list"@,
{
    reveal_strlit("var_declaration");
    reveal_strlit("var_spec_list");
    reveal_strlit("var_spec");
    assert("var_declaration"@.len() != "var_spec_list"@.len());
    assert("var_declaration"@.len() != "var_spec"@.len());
    assert("var_spec"@.len() != "var_spec_list"@.len());
}

proof fn leaves_at_kinds()
    ensures
        "type_identifier"@ != "qualified_type"@,
        "type_identifier"@ != "slice_type"@,
        "type_identifier"@ != "array_type"@,
        "type_identifier"@ != "map_type"@,
        "type_identifier"@ != "generic_type"@,
        "type_identifier"@ != "channel_type"@,
        "slice_type"@ != "qualified_type"@,
        "slice_type"@ != "array_type"@,
        "slice_type"@ != "map_type"@,
        "slice_type"@ != "generic_type"@,
        "slice_type"@ != "channel_type"@,
        "array_type"@ != "qualified_type"@,
        "array_type"@ != "map_type"@,
        "array_type"@ != "generic_type"@,
        "array_type"@ != "channel_type"@,
        "channel_type"@ != "qualified_type"@,
        "channel_type"@ != "map_type"@,
        "channel_type"@ != "generic_type"@,
        "map_type"@ != "qualified_type"@,
        "map_type"@ != "generic_type"@,
        "qualified_type"@ != "generic_type"@,
{
    reveal_strlit("type_identifier");
    reveal_strlit("qualified_type");
    reveal_strlit("slice_type");
    reveal_strlit("array_type");
    reveal_strlit("map_type");
    reveal_strlit("generic_type");
    reveal_strlit("channel_type");
    assert("type_identifier"@.len() != "qualified_type"@.len());
    assert("type_identifier"@.len() != "slice_type"@.len());
    assert("type_identifier"@.len() != "array_type"@.len());
    assert("type_identifier"@.len() != "map_type"@.len());
    assert("type_identifier"@.len() != "generic_type"@.len());
    assert("type_identifier"@.len() != "channel_type"@.len());
    assert("slice_type"@.len() != "qualified_type"@.len());
    assert("slice_type"@[0] != "array_type"@[0]);
    assert("slice_type"@.len() != "map_type"@.len());
    assert("slice_type"@.len() != "generic_type"@.len());
    assert("slice_type"@.len() != "channel_type"@.len());
    assert("array_type"@.len() != "qualified_type"@.len());
    assert("array_type"@.len() != "map_type"@.len());
    assert("array_type"@.len() != "generic_type"@.len());
    assert("array_type"@.len() != "channel_type"@.len());
    assert("channel_type"@.len() != "qualified_type"@.len());
    assert("channel_type"@.len() != "map_type"@.len());
    assert("channel_type"@[0] != "generic_type"@[0]);
    assert("map_type"@.len() != "qualified_type"@.len());
    assert("map_type"@.len() != "generic_type"@.len());
    assert("qualified_type"@.len() != "generic_type"@.len());
}

proof fn own_type_refs_kinds()
    ensures
        "parameter_declaration"@ != "variadic_parameter_declaration"@,
        "parameter_declaration"@ != "function_declaration"@,
        "parameter_declaration"@ != "method_declaration"@,
        "parameter_declaration"@ != "field_declaration"@,
        "variadic_parameter_declaration"@ != "function_declaration"@,
        "variadic_parameter_declaration"@ != "method_declaration"@,
        "variadic_parameter_declaration"@ != "field_declaration"@,
        "field_declaration"@ != "function_declaration"@,
        "field_declaration"@ != "method_declaration"@,
        "function_declaration"@ != "method_declaration"@,
{
    reveal_strlit("parameter_declaration");
    reveal_strlit("variadic_parameter_declaration");
    reveal_strlit("function_declaration");
    reveal_strlit("method_declaration");
    reveal_strlit("field_declaration");
    assert("parameter_declaration"@.len() != "variadic_parameter_declaration"@.len());
    assert("parameter_declaration"@.len() != "function_declaration"@.len());
    assert("parameter_declaration"@.len() != "method_declaration"@.len());
    assert("parameter_declaration"@.len() != "field_declaration"@.len());
    assert("variadic_parameter_declaration"@.len() != "function_declaration"@.len());
    assert("variadic_parameter_declaration"@.len() != "method_declaration"@.len());
    assert("variadic_parameter_declaration"@.len() != "field_declaration"@.len());
    assert("field_declaration"@.len() != "function_declaration"@.len());
    assert("field_declaration"@.len() != "method_declaration"@.len());
    assert("function_declaration"@.len() != "method_declaration"@.len());
}

proof fn introduced_kinds()
    ensures
        "identifier"@ != "function_declaration"@,
        "identifier"@ != "method_declaration"@,
        "identifier"@ != "func_literal"@,
        "identifier"@ != "short_var_declaration"@,
        "identifier"@ != "range_clause"@,
        "function_declaration"@ != "method_declaration"@,
        "function_declaration"@ != "func_literal"@,
        "function_declaration"@ != "short_var_declaration"@,
        "function_declaration"@ != "range_clause"@,
        "method_declaration"@ != "func_literal"@,
        "method_declaration"@ != "short_var_declaration"@,
        "method_declaration"@ != "range_clause"@,
        "func_literal"@ != "short_var_declaration"@,
        "func_literal"@ != "range_clause"@,
        "short_var_declaration"@ != "range_clause"@,
{
    reveal_strlit("identifier");
    reveal_strlit("function_declaration");
    reveal_strlit("method_declaration");
    reveal_strlit("func_literal");
    reveal_strlit("short_var_declaration");
    reveal_strlit("range_clause");
    assert("identifier"@.len() != "function_declaration"@.len());
    assert("identifier"@.len() != "method_declaration"@.len());
    assert("identifier"@.len() != "func_literal"@.len());
    assert("identifier"@.len() != "short_var_declaration"@.len());
    assert("identifier"@.len() != "range_clause"@.len());
    assert("function_declaration"@.len() != "method_declaration"@.len());
    assert("function_declaration"@.len() != "func_literal"@.len());
    assert("function_declaration"@.len() != "short_var_declaration"@.len());
    assert("function_declaration"@.len() != "range_clause"@.len());
    assert("method_declaration"@.len() != "func_literal"@.len());
    assert("method_declaration"@.len() != "short_var_declaration"@.len());
    assert("method_declaration"@.len() != "range_clause"@.len());
    assert("func_literal"@.len() != "short_var_declaration"@.len());
    assert("func_literal"@[0] != "range_clause"@[0]);
    assert("short_var_declaration"@.len() != "range_clause"@.len());
}

proof fn type_leaf_name_kinds()
    ensures
        "type_identifier"@ != "qualified_type"@,
        "type_identifier"@ != "pointer_type"@,
        "type_identifier"@ != "generic_type"@,
        "qualified_type"@ != "pointer_type"@,
        "qualified_type"@ != "generic_type"@,
        "generic_type"@ != "pointer_type"@,
{
    reveal_strlit("type_identifier");
    reveal_strlit("qualified_type");
    reveal_strlit("pointer_type");
    reveal_strlit("generic_type");
    assert("type_identifier"@.len() != "qualified_type"@.len());
    assert("type_identifier"@.len() != "pointer_type"@.len());
    assert("type_identifier"@.len() != "generic_type"@.len());
    assert("qualified_type"@.len() != "pointer_type"@.len());
    assert("qualified_type"@.len() != "generic_type"@.len());
    assert("generic_type"@[0] != "pointer_type"@[0]);
}

proof fn is_spec_kinds()
    ensures
        "function_declaration"@ != "var_spec"@,
        "function_declaration"@ != "const_spec"@,
        "method_declaration"@ != "var_spec"@,
        "method_declaration"@ != "const_spec"@,
        "func_literal"@ != "var_spec"@,
        "func_literal"@ != "const_spec"@,
        "short_var_declaration"@ != "var_spec"@,
        "short_var_declaration"@ != "const_spec"@,
        "range_clause"@ != "var_spec"@,
        "range_clause"@ != "const_spec"@,
        "identifier"@ != "var_spec"@,
        "identifier"@ != "const_spec"@,
{
    reveal_strlit("function_declaration");
    reveal_strlit("var_spec");
    reveal_strlit("const_spec");
    reveal_strlit("method_declaration");
    reveal_strlit("func_literal");
    reveal_strlit("short_var_declaration");
    reveal_strlit("range_clause");
    reveal_strlit("identifier");
    assert("function_declaration"@.len() != "var_spec"@.len());
    assert("function_declaration"@.len() != "const_spec"@.len());
    assert("method_declaration"@.len() != "var_spec"@.len());
    assert("method_declaration"@.len() != "const_spec"@.len());
    assert("func_literal"@.len() != "var_spec"@.len());
    assert("func_literal"@.len() != "const_spec"@.len());
    assert("short_var_declaration"@.len() != "var_spec"@.len());
    assert("short_var_declaration"@.len() != "const_spec"@.len());
    assert("range_clause"@.len() != "var_spec"@.len());
    assert("range_clause"@.len() != "const_spec"@.len());
    assert("identifier"@.len() != "var_spec"@.len());
    assert("identifier"@[0] != "const_spec"@[0]);
}

proof fn scopes_with_kinds()
    ensures
        "function_declaration"@ != "method_declaration"@,
        "function_declaration"@ != "func_literal"@,
        "function_declaration"@ != "block"@,
        "method_declaration"@ != "func_literal"@,
        "method_declaration"@ != "block"@,
        "func_literal"@ != "block"@,
{
    reveal_strlit("function_declaration");
    reveal_strlit("method_declaration");
    reveal_strlit("func_literal");
    reveal_strlit("block");
    assert("function_declaration"@.len() != "method_declaration"@.len());
    assert("function_declaration"@.len() != "func_literal"@.len());
    assert("function_declaration"@.len() != "block"@.len());
    assert("method_declaration"@.len() != "func_literal"@.len());
    assert("method_declaration"@.len() != "block"@.len());
    assert("func_literal"@.len() != "block"@.len());
}

proof fn imports_reported(
    t: Syntax,
    file: Seq<char>,
    found: Seq<Seq<CaptureView>>,
    i: int,
    r: ReferenceView,
)
    requires
        t.nested(),
        0 <= i < t.after(0),
        forall|j: int, k: int| t.has(j) && t.kind(j) == "import_spec"@
            && j < k < #[trigger] t.after(j)
            ==> #[trigger] t.kind(k) != "import_spec"@,
        import_of(t, file, i).contains(r),
    ensures
        reported(facts_of(t, file, found), r),
{
    imports_in_document_order(t, file, 0);
    let k = choose|k: int| 0 <= k < import_of(t, file, i).len() && import_of(t, file, i)[k] == r;
    in_order_each(imports_of_nodes(t, file), 0, t.after(0), i, k);
    assert(imports_at(t, file, 0).contains(r));
    in_either(calls(t.source, file, found), imports_at(t, file, 0), r);
    in_either(calls(t.source, file, found) + imports_at(t, file, 0), type_refs_at(t, file, 0), r);
    in_either(
        calls(t.source, file, found) + imports_at(t, file, 0) + type_refs_at(t, file, 0),
        reads_at(t, file, 0),
        r,
    );
    in_either(
        calls(t.source, file, found) + imports_at(t, file, 0) + type_refs_at(t, file, 0)
            + reads_at(t, file, 0),
        writes_at(t, file, 0),
        r,
    );
    is_reported(facts_of(t, file, found), references_of(t, file, found), r);
}

proof fn reads_reported(
    t: Syntax,
    file: Seq<char>,
    found: Seq<Seq<CaptureView>>,
    i: int,
    r: ReferenceView,
)
    requires
        t.nested(),
        0 <= i < t.after(0),
        forall|j: int, k: int| t.has(j) && t.kind(j) == "identifier"@
            && j < k < #[trigger] t.after(j)
            ==> #[trigger] t.kind(k) != "identifier"@,
        read_of(t, file, i).contains(r),
    ensures
        reported(facts_of(t, file, found), r),
{
    reads_in_document_order(t, file, 0);
    let k = choose|k: int| 0 <= k < read_of(t, file, i).len() && read_of(t, file, i)[k] == r;
    in_order_each(reads_of_nodes(t, file), 0, t.after(0), i, k);
    assert(reads_at(t, file, 0).contains(r));
    in_either(
        calls(t.source, file, found) + imports_at(t, file, 0) + type_refs_at(t, file, 0),
        reads_at(t, file, 0),
        r,
    );
    in_either(
        calls(t.source, file, found) + imports_at(t, file, 0) + type_refs_at(t, file, 0)
            + reads_at(t, file, 0),
        writes_at(t, file, 0),
        r,
    );
    is_reported(facts_of(t, file, found), references_of(t, file, found), r);
}

proof fn writes_reported(
    t: Syntax,
    file: Seq<char>,
    found: Seq<Seq<CaptureView>>,
    i: int,
    r: ReferenceView,
)
    requires
        t.nested(),
        0 <= i < t.after(0),
        assignment_writes(t, file, i).contains(r),
    ensures
        reported(facts_of(t, file, found), r),
{
    writes_in_document_order(t, file, 0);
    let k = choose|k: int| 0 <= k < assignment_writes(t, file, i).len()
        && assignment_writes(t, file, i)[k] == r;
    in_order_each(writes_of_nodes(t, file), 0, t.after(0), i, k);
    assert(writes_at(t, file, 0).contains(r));
    in_either(
        calls(t.source, file, found) + imports_at(t, file, 0) + type_refs_at(t, file, 0)
            + reads_at(t, file, 0),
        writes_at(t, file, 0),
        r,
    );
    is_reported(facts_of(t, file, found), references_of(t, file, found), r);
}

proof fn types_in_has(c: Ctx, prefix: Seq<DescriptorView>, lo: int, hi: int, j: int, x: SymbolView)
    requires
        0 <= lo,
        hi <= c.tree.len(),
        c.tree.reaches(lo, hi, j),
        type_symbols(c, prefix, j).contains(x),
    ensures
        types_in(c, prefix, lo, hi).contains(x),
    decreases hi - lo,
{
    let own = type_symbols(c, prefix, lo);
    let rest = types_in(c, prefix, c.tree.next(lo, hi), hi);
    if j != lo {
        types_in_has(c, prefix, c.tree.next(lo, hi), hi, j, x);
    }
    in_either(own, rest, x);
}

proof fn names_in_has(
    c: Ctx,
    prefix: Seq<DescriptorView>,
    owner: int,
    kind: SymbolKind,
    lo: int,
    hi: int,
    j: int,
    x: SymbolView,
)
    requires
        0 <= lo,
        hi <= c.tree.len(),
        c.tree.reaches(lo, hi, j),
        ((if c.tree.kind(j) == "identifier"@ { seq![ definition( c, prefix, owner, c.tree.text(j), kind, DescriptorView::Term(c.tree.text(j)), ), ] } else { Seq::empty() })).contains(
            x,
        ),
    ensures
        names_in(c, prefix, owner, kind, lo, hi).contains(x),
    decreases hi - lo,
{
    let own = (if c.tree.kind(lo) == "identifier"@ { seq![ definition( c, prefix, owner, c.tree.text(lo), kind, DescriptorView::Term(c.tree.text(lo)), ), ] } else { Seq::empty() });
    let rest = names_in(c, prefix, owner, kind, c.tree.next(lo, hi), hi);
    if j != lo {
        names_in_has(c, prefix, owner, kind, c.tree.next(lo, hi), hi, j, x);
    }
    in_either(own, rest, x);
}

proof fn specs_in_has(
    c: Ctx,
    prefix: Seq<DescriptorView>,
    spec_kind: Seq<char>,
    kind: SymbolKind,
    lo: int,
    hi: int,
    j: int,
    x: SymbolView,
)
    requires
        0 <= lo,
        hi <= c.tree.len(),
        c.tree.reaches(lo, hi, j),
        ((if c.tree.kind(j) == spec_kind { names_in(c, prefix, j, kind, j + 1, c.tree.after(j)) } else { Seq::empty() })).contains(
            x,
        ),
    ensures
        specs_in(c, prefix, spec_kind, kind, lo, hi).contains(x),
    decreases hi - lo,
{
    let own = (if c.tree.kind(lo) == spec_kind { names_in(c, prefix, lo, kind, lo + 1, c.tree.after(lo)) } else { Seq::empty() });
    let rest = specs_in(c, prefix, spec_kind, kind, c.tree.next(lo, hi), hi);
    if j != lo {
        specs_in_has(c, prefix, spec_kind, kind, c.tree.next(lo, hi), hi, j, x);
    }
    in_either(own, rest, x);
}

proof fn variables_in_has(
    c: Ctx,
    prefix: Seq<DescriptorView>,
    lo: int,
    hi: int,
    j: int,
    x: SymbolView,
)
    requires
        0 <= lo,
        hi <= c.tree.len(),
        c.tree.reaches(lo, hi, j),
        ((if c.tree.kind(j) == "var_spec_list"@ { specs_in(c, prefix, "var_spec"@, SymbolKind::Static, j + 1, c.tree.after(j)) } else if c.tree.kind(j) == "var_spec"@ { names_in(c, prefix, j, SymbolKind::Static, j + 1, c.tree.after(j)) } else { Seq::empty() })).contains(
            x,
        ),
    ensures
        variables_in(c, prefix, lo, hi).contains(x),
    decreases hi - lo,
{
    let own = (if c.tree.kind(lo) == "var_spec_list"@ { specs_in(c, prefix, "var_spec"@, SymbolKind::Static, lo + 1, c.tree.after(lo)) } else if c.tree.kind(lo) == "var_spec"@ { names_in(c, prefix, lo, SymbolKind::Static, lo + 1, c.tree.after(lo)) } else { Seq::empty() });
    let rest = variables_in(c, prefix, c.tree.next(lo, hi), hi);
    if j != lo {
        variables_in_has(c, prefix, c.tree.next(lo, hi), hi, j, x);
    }
    in_either(own, rest, x);
}

proof fn symbols_in_has(
    c: Ctx,
    prefix: Seq<DescriptorView>,
    is_pkg_main: bool,
    lo: int,
    hi: int,
    j: int,
    x: SymbolView,
)
    requires
        0 <= lo,
        hi <= c.tree.len(),
        c.tree.reaches(lo, hi, j),
        symbols_at(c, prefix, is_pkg_main, j).contains(x),
    ensures
        symbols_in(c, prefix, is_pkg_main, lo, hi).contains(x),
    decreases hi - lo,
{
    let own = symbols_at(c, prefix, is_pkg_main, lo);
    let rest = symbols_in(c, prefix, is_pkg_main, c.tree.next(lo, hi), hi);
    if j != lo {
        symbols_in_has(c, prefix, is_pkg_main, c.tree.next(lo, hi), hi, j, x);
    }
    in_either(own, rest, x);
}

proof fn writes_to_has(t: Syntax, file: Seq<char>, lo: int, hi: int, j: int, x: ReferenceView)
    requires
        0 <= lo,
        hi <= t.len(),
        t.reaches(lo, hi, j),
        write_to(t, file, j).contains(x),
    ensures
        writes_to(t, file, lo, hi).contains(x),
    decreases hi - lo,
{
    let own = write_to(t, file, lo);
    let rest = writes_to(t, file, t.next(lo, hi), hi);
    if j != lo {
        writes_to_has(t, file, t.next(lo, hi), hi, j, x);
    }
    in_either(own, rest, x);
}

proof fn leaves_in_has(
    t: Syntax,
    file: Seq<char>,
    ctx: TypeRefContext,
    lo: int,
    hi: int,
    j: int,
    x: ReferenceView,
)
    requires
        0 <= lo,
        hi <= t.len(),
        t.reaches(lo, hi, j),
        ((if t.named(j) { leaves_at(t, file, ctx, j) } else { Seq::empty() })).contains(x),
    ensures
        leaves_in(t, file, ctx, lo, hi).contains(x),
    decreases hi - lo,
{
    let own = (if t.named(lo) { leaves_at(t, file, ctx, lo) } else { Seq::empty() });
    let rest = leaves_in(t, file, ctx, t.next(lo, hi), hi);
    if j != lo {
        leaves_in_has(t, file, ctx, t.next(lo, hi), hi, j, x);
    }
    in_either(own, rest, x);
}

proof fn results_in_has(t: Syntax, file: Seq<char>, lo: int, hi: int, j: int, x: ReferenceView)
    requires
        0 <= lo,
        hi <= t.len(),
        t.reaches(lo, hi, j),
        ((if !t.named(j) { Seq::empty() } else if t.kind(j) == "parameter_declaration"@ { typed_refs(t, file, TypeRefContext::ReturnType, j) } else { leaves_at(t, file, TypeRefContext::ReturnType, j) })).contains(
            x,
        ),
    ensures
        results_in(t, file, lo, hi).contains(x),
    decreases hi - lo,
{
    let own = (if !t.named(lo) { Seq::empty() } else if t.kind(lo) == "parameter_declaration"@ { typed_refs(t, file, TypeRefContext::ReturnType, lo) } else { leaves_at(t, file, TypeRefContext::ReturnType, lo) });
    let rest = results_in(t, file, t.next(lo, hi), hi);
    if j != lo {
        results_in_has(t, file, t.next(lo, hi), hi, j, x);
    }
    in_either(own, rest, x);
}

proof fn ranged_in_has(t: Syntax, scopes: Seq<Scope>, lo: int, hi: int, j: int, x: BindingView)
    requires
        0 <= lo,
        hi <= t.len(),
        t.reaches(lo, hi, j),
        ((if t.kind(j) == "identifier"@ { local_at(t, scopes, None, j) } else { Seq::empty() })).contains(
            x,
        ),
    ensures
        ranged_in(t, scopes, lo, hi).contains(x),
    decreases hi - lo,
{
    let own = (if t.kind(lo) == "identifier"@ { local_at(t, scopes, None, lo) } else { Seq::empty() });
    let rest = ranged_in(t, scopes, t.next(lo, hi), hi);
    if j != lo {
        ranged_in_has(t, scopes, t.next(lo, hi), hi, j, x);
    }
    in_either(own, rest, x);
}

proof fn param_names_in_has(
    t: Syntax,
    scopes: Seq<Scope>,
    param: int,
    lo: int,
    hi: int,
    j: int,
    x: BindingView,
)
    requires
        0 <= lo,
        hi <= t.len(),
        t.reaches(lo, hi, j),
        ((if t.kind(j) == "identifier"@ && t.text(j) != "_"@ { seq![ local_binding( scopes, t.text(j), t.start(j), BindingKind::Param, typed_name(t, param), ), ] } else { Seq::empty() })).contains(
            x,
        ),
    ensures
        param_names_in(t, scopes, param, lo, hi).contains(x),
    decreases hi - lo,
{
    let own = (if t.kind(lo) == "identifier"@ && t.text(lo) != "_"@ { seq![ local_binding( scopes, t.text(lo), t.start(lo), BindingKind::Param, typed_name(t, param), ), ] } else { Seq::empty() });
    let rest = param_names_in(t, scopes, param, t.next(lo, hi), hi);
    if j != lo {
        param_names_in_has(t, scopes, param, t.next(lo, hi), hi, j, x);
    }
    in_either(own, rest, x);
}

proof fn params_in_has(t: Syntax, scopes: Seq<Scope>, lo: int, hi: int, j: int, x: BindingView)
    requires
        0 <= lo,
        hi <= t.len(),
        t.reaches(lo, hi, j),
        ((if t.named(j) && (t.kind(j) == "parameter_declaration"@ || t.kind(j) == "variadic_parameter_declaration"@) { param_names_in(t, scopes, j, j + 1, t.after(j)) } else { Seq::empty() })).contains(
            x,
        ),
    ensures
        params_in(t, scopes, lo, hi).contains(x),
    decreases hi - lo,
{
    let own = (if t.named(lo) && (t.kind(lo) == "parameter_declaration"@ || t.kind(lo) == "variadic_parameter_declaration"@) { param_names_in(t, scopes, lo, lo + 1, t.after(lo)) } else { Seq::empty() });
    let rest = params_in(t, scopes, t.next(lo, hi), hi);
    if j != lo {
        params_in_has(t, scopes, t.next(lo, hi), hi, j, x);
    }
    in_either(own, rest, x);
}

/// The visibility of a name: public where it starts in upper case.
pub open spec fn shown(name: Seq<char>) -> Visibility {
    if name.len() > 0 && is_upper(name[0]) {
        Visibility::Public
    } else {
        Visibility::Internal
    }
}

/// A function declaration at the top of a Go file defines a function, which is
/// public where its name starts in upper case.
pub proof fn functions_are_defined(
    t: Syntax,
    file: Seq<char>,
    found: Seq<Seq<CaptureView>>,
    i: int,
    n: int,
)
    requires
        t.nested(),
        t.has_child(0, i),
        t.kind(i) == "function_declaration"@,
        t.child(i, "name"@) == Some(n),
    ensures
        defines_as(
            facts_of(t, file, found),
            t,
            i,
            t.text(n),
            SymbolKind::Function,
            shown(t.text(n)),
        ),
{
    symbols_at_kinds();
    let c = context(t, file);
    let prefix = steps(t, file);
    let x = symbols_at(c, prefix, package_of(t) == Some("main"@), i)[0];
    assert(symbols_at(c, prefix, package_of(t) == Some("main"@), i).contains(x));
    symbols_in_has(c, prefix, package_of(t) == Some("main"@), 1, t.after(0), i, x);
    starts_with(
        facts_of(t, file, found).symbols,
        symbols_in(c, prefix, package_of(t) == Some("main"@), 1, t.after(0)),
        x,
    );
}

/// A method declaration at the top of a Go file defines a method, which is
/// public where its name starts in upper case.
pub proof fn methods_are_defined(
    t: Syntax,
    file: Seq<char>,
    found: Seq<Seq<CaptureView>>,
    i: int,
    n: int,
)
    requires
        t.nested(),
        t.has_child(0, i),
        t.kind(i) == "method_declaration"@,
        t.child(i, "name"@) == Some(n),
    ensures
        defines_as(facts_of(t, file, found), t, i, t.text(n), SymbolKind::Method, shown(t.text(n))),
{
    symbols_at_kinds();
    let c = context(t, file);
    let prefix = steps(t, file);
    let x = symbols_at(c, prefix, package_of(t) == Some("main"@), i)[0];
    assert(symbols_at(c, prefix, package_of(t) == Some("main"@), i).contains(x));
    symbols_in_has(c, prefix, package_of(t) == Some("main"@), 1, t.after(0), i, x);
    starts_with(
        facts_of(t, file, found).symbols,
        symbols_in(c, prefix, package_of(t) == Some("main"@), 1, t.after(0)),
        x,
    );
}

/// A function with the name `main` at the top of a Go file in the package
/// `main` is where the program starts.
pub proof fn programs_start_at_main(
    t: Syntax,
    file: Seq<char>,
    found: Seq<Seq<CaptureView>>,
    i: int,
    n: int,
    p: int,
    m: int,
)
    requires
        t.nested(),
        t.has_child(0, i),
        t.kind(i) == "function_declaration"@,
        t.child(i, "name"@) == Some(n),
        t.text(n) == "main"@,
        t.child_of_kind(0, "package_clause"@) == Some(p),
        t.child_of_kind(p, "package_identifier"@) == Some(m),
        t.text(m) == "main"@,
    ensures
        is_entered(facts_of(t, file, found), t, i, t.text(n), EntryPointView::Main),
{
    symbols_at_kinds();
    let c = context(t, file);
    let prefix = steps(t, file);
    reveal_strlit("main");
    let x = symbols_at(c, prefix, package_of(t) == Some("main"@), i)[0];
    assert(x.entry_points[0] == EntryPointView::Main);
    assert(symbols_at(c, prefix, package_of(t) == Some("main"@), i).contains(x));
    symbols_in_has(c, prefix, package_of(t) == Some("main"@), 1, t.after(0), i, x);
    starts_with(
        facts_of(t, file, found).symbols,
        symbols_in(c, prefix, package_of(t) == Some("main"@), 1, t.after(0)),
        x,
    );
}

/// A method with the name `ServeHTTP` at the top of a Go file is where requests
/// come to.
pub proof fn handlers_are_entered(
    t: Syntax,
    file: Seq<char>,
    found: Seq<Seq<CaptureView>>,
    i: int,
    n: int,
)
    requires
        t.nested(),
        t.has_child(0, i),
        t.kind(i) == "method_declaration"@,
        t.child(i, "name"@) == Some(n),
        t.text(n) == "ServeHTTP"@,
    ensures
        is_entered(
            facts_of(t, file, found),
            t,
            i,
            t.text(n),
            EntryPointView::HttpRoute("ServeHTTP"@),
        ),
{
    symbols_at_kinds();
    let c = context(t, file);
    let prefix = steps(t, file);
    let x = symbols_at(c, prefix, package_of(t) == Some("main"@), i)[0];
    assert(x.entry_points[0] == EntryPointView::HttpRoute("ServeHTTP"@));
    assert(symbols_at(c, prefix, package_of(t) == Some("main"@), i).contains(x));
    symbols_in_has(c, prefix, package_of(t) == Some("main"@), 1, t.after(0), i, x);
    starts_with(
        facts_of(t, file, found).symbols,
        symbols_in(c, prefix, package_of(t) == Some("main"@), 1, t.after(0)),
        x,
    );
}

/// A type at the top of a Go file is defined: as a struct or an interface where
/// a specification says so, as an alias otherwise.
pub proof fn types_are_defined(
    t: Syntax,
    file: Seq<char>,
    found: Seq<Seq<CaptureView>>,
    i: int,
    j: int,
    n: int,
    ty: int,
)
    requires
        t.nested(),
        t.has_child(0, i),
        t.kind(i) == "type_declaration"@,
        t.has_child(i, j),
        t.kind(j) == "type_spec"@ || t.kind(j) == "type_alias"@,
        t.child(j, "name"@) == Some(n),
        t.child(j, "type"@) == Some(ty),
    ensures
        defines_as(
            facts_of(t, file, found),
            t,
            j,
            t.text(n),
            (if t.kind(j) == "type_spec"@ && t.kind(ty) == "struct_type"@ { SymbolKind::Struct } else if t.kind(j) == "type_spec"@ && t.kind(ty) == "interface_type"@ { SymbolKind::Interface } else { SymbolKind::TypeAlias }),
            shown(t.text(n)),
        ),
{
    symbols_at_kinds();
    type_kind_kinds();
    let c = context(t, file);
    let prefix = steps(t, file);
    let x = type_symbols(c, prefix, j)[0];
    reached_is_behind(t, 1, t.after(0), i);
    types_in_has(c, prefix, i + 1, t.after(i), j, x);
    symbols_in_has(c, prefix, package_of(t) == Some("main"@), 1, t.after(0), i, x);
    starts_with(
        facts_of(t, file, found).symbols,
        symbols_in(c, prefix, package_of(t) == Some("main"@), 1, t.after(0)),
        x,
    );
}

/// Each name of a constant specification at the top of a Go file is a constant.
pub proof fn constants_are_defined(
    t: Syntax,
    file: Seq<char>,
    found: Seq<Seq<CaptureView>>,
    i: int,
    j: int,
    n: int,
)
    requires
        t.nested(),
        t.has_child(0, i),
        t.kind(i) == "const_declaration"@,
        t.has_child(i, j),
        t.kind(j) == "const_spec"@,
        t.has_child(j, n),
        t.kind(n) == "identifier"@,
    ensures
        defines_as(facts_of(t, file, found), t, j, t.text(n), SymbolKind::Const, shown(t.text(n))),
{
    symbols_at_kinds();
    let c = context(t, file);
    let prefix = steps(t, file);
    let x = definition(c, prefix, j, t.text(n), SymbolKind::Const, DescriptorView::Term(t.text(n)));
    reached_is_behind(t, 1, t.after(0), i);
    reached_is_behind(t, i + 1, t.after(i), j);
    assert(seq![x][0] == x);
    names_in_has(c, prefix, j, SymbolKind::Const, j + 1, t.after(j), n, x);
    specs_in_has(c, prefix, "const_spec"@, SymbolKind::Const, i + 1, t.after(i), j, x);
    symbols_in_has(c, prefix, package_of(t) == Some("main"@), 1, t.after(0), i, x);
    starts_with(
        facts_of(t, file, found).symbols,
        symbols_in(c, prefix, package_of(t) == Some("main"@), 1, t.after(0)),
        x,
    );
}

/// Each name of a variable specification at the top of a Go file is a static
/// variable, whether the specification stands alone or in a list.
pub proof fn variables_are_defined(
    t: Syntax,
    file: Seq<char>,
    found: Seq<Seq<CaptureView>>,
    i: int,
    list: int,
    j: int,
    n: int,
)
    requires
        t.nested(),
        t.has_child(0, i),
        t.kind(i) == "var_declaration"@,
        (list == i && t.has_child(i, j))
            || (t.has_child(i, list) && t.kind(list) == "var_spec_list"@ && t.has_child(list, j)),
        t.kind(j) == "var_spec"@,
        t.has_child(j, n),
        t.kind(n) == "identifier"@,
    ensures
        defines_as(facts_of(t, file, found), t, j, t.text(n), SymbolKind::Static, shown(t.text(n))),
{
    symbols_at_kinds();
    variables_in_kinds();
    let c = context(t, file);
    let prefix = steps(t, file);
    let x = definition(
        c,
        prefix,
        j,
        t.text(n),
        SymbolKind::Static,
        DescriptorView::Term(t.text(n)),
    );
    reached_is_behind(t, 1, t.after(0), i);
    assert(seq![x][0] == x);
    if list == i {
        reached_is_behind(t, i + 1, t.after(i), j);
        names_in_has(c, prefix, j, SymbolKind::Static, j + 1, t.after(j), n, x);
        variables_in_has(c, prefix, i + 1, t.after(i), j, x);
    } else {
        reached_is_behind(t, i + 1, t.after(i), list);
        reached_is_behind(t, list + 1, t.after(list), j);
        names_in_has(c, prefix, j, SymbolKind::Static, j + 1, t.after(j), n, x);
        specs_in_has(c, prefix, "var_spec"@, SymbolKind::Static, list + 1, t.after(list), j, x);
        variables_in_has(c, prefix, i + 1, t.after(i), list, x);
    }
    symbols_in_has(c, prefix, package_of(t) == Some("main"@), 1, t.after(0), i, x);
    starts_with(
        facts_of(t, file, found).symbols,
        symbols_in(c, prefix, package_of(t) == Some("main"@), 1, t.after(0)),
        x,
    );
}

/// Whether the type `i` at a position leads to the type name `n` at the position
/// `at`: it is that name, or the elements of a slice or an array, the keys or the
/// values of a map, the values of a channel, the end of a qualified name or the base
/// of a generic type lead to it, or any part of another type does, such as what a
/// pointer points to. What stands between the brackets of a generic type is an
/// argument.
pub open spec fn leads_to(
    t: Syntax,
    i: int,
    position: TypeRefContext,
    n: int,
    at: TypeRefContext,
) -> bool
    decreases n - i,
{
    if i >= n {
        i == n && t.kind(i) == "type_identifier"@ && position == at
    } else if t.kind(i) == "type_identifier"@ {
        false
    } else if t.kind(i) == "slice_type"@ || t.kind(i) == "array_type"@ {
        t.child(i, "element"@) matches Some(c) && i < c <= n && leads_to(t, c, position, n, at)
    } else if t.kind(i) == "channel_type"@ {
        t.child(i, "value"@) matches Some(c) && i < c <= n && leads_to(t, c, position, n, at)
    } else if t.kind(i) == "map_type"@ {
        ||| t.child(i, "key"@) matches Some(c) && i < c <= n && leads_to(t, c, position, n, at)
        ||| t.child(i, "value"@) matches Some(c) && i < c <= n && leads_to(t, c, position, n, at)
    } else if t.kind(i) == "qualified_type"@ {
        t.child(i, "name"@) matches Some(c) && i < c <= n && leads_to(t, c, position, n, at)
    } else if t.kind(i) == "generic_type"@ {
        ||| t.child(i, "type"@) matches Some(c) && i < c <= n && leads_to(t, c, position, n, at)
        ||| t.child(i, "type_arguments"@) matches Some(args) && i < args
            && exists|c: int| #[trigger] t.has_child(args, c) && t.named(c) && i < c <= n
            && leads_to(t, c, TypeRefContext::GenericArg, n, at)
    } else {
        exists|c: int| #[trigger] t.has_child(i, c) && t.named(c) && i < c <= n
            && leads_to(t, c, position, n, at)
    }
}

proof fn leaves_are_found(
    t: Syntax,
    file: Seq<char>,
    i: int,
    position: TypeRefContext,
    n: int,
    at: TypeRefContext,
)
    requires
        t.has(i),
        leads_to(t, i, position, n, at),
    ensures
        leaves_at(t, file, position, i).contains(type_reference_at(t, file, n, t.text(n), at)),
    decreases n - i,
{
    let x = type_reference_at(t, file, n, t.text(n), at);
    let kind = t.kind(i);
    if i >= n {
        assert(leaves_at(t, file, position, i)[0] == x);
    } else if kind == "slice_type"@ || kind == "array_type"@ {
        leaves_at_kinds();
        leaves_are_found(t, file, t.child(i, "element"@)->0, position, n, at);
    } else if kind == "channel_type"@ {
        leaves_at_kinds();
        leaves_are_found(t, file, t.child(i, "value"@)->0, position, n, at);
    } else if kind == "map_type"@ {
        leaves_at_kinds();
        let keys = match t.child(i, "key"@) {
            Some(key) => leaves_at(t, file, position, key),
            None => Seq::empty(),
        };
        let values = match t.child(i, "value"@) {
            Some(value) => leaves_at(t, file, position, value),
            None => Seq::empty(),
        };
        if t.child(i, "key"@) matches Some(c) && i < c <= n && leads_to(t, c, position, n, at) {
            leaves_are_found(t, file, t.child(i, "key"@)->0, position, n, at);
        } else {
            leaves_are_found(t, file, t.child(i, "value"@)->0, position, n, at);
        }
        in_either(keys, values, x);
    } else if kind == "qualified_type"@ {
        leaves_at_kinds();
        leaves_are_found(t, file, t.child(i, "name"@)->0, position, n, at);
    } else if kind == "generic_type"@ {
        leaves_at_kinds();
        let own = match t.child(i, "type"@) {
            Some(base) => leaves_at(t, file, position, base),
            None => Seq::empty(),
        };
        let arguments = match t.child(i, "type_arguments"@) {
            Some(args) => leaves_in(t, file, TypeRefContext::GenericArg, args + 1, t.after(args)),
            None => Seq::empty(),
        };
        if t.child(i, "type"@) matches Some(c) && i < c <= n && leads_to(t, c, position, n, at) {
            leaves_are_found(t, file, t.child(i, "type"@)->0, position, n, at);
        } else {
            let args = t.child(i, "type_arguments"@)->0;
            let c = choose|c: int| #[trigger] t.has_child(args, c) && t.named(c) && i < c <= n
                && leads_to(t, c, TypeRefContext::GenericArg, n, at);
            reached_is_behind(t, args + 1, t.after(args), c);
            leaves_are_found(t, file, c, TypeRefContext::GenericArg, n, at);
            leaves_in_has(t, file, TypeRefContext::GenericArg, args + 1, t.after(args), c, x);
        }
        in_either(own, arguments, x);
    } else {
        let c = choose|c: int| #[trigger] t.has_child(i, c) && t.named(c) && i < c <= n
            && leads_to(t, c, position, n, at);
        reached_is_behind(t, i + 1, t.after(i), c);
        leaves_are_found(t, file, c, position, n, at);
        leaves_in_has(t, file, position, i + 1, t.after(i), c, x);
    }
}

proof fn type_refs_at_reaches(t: Syntax, file: Seq<char>, i: int, j: int, x: ReferenceView)
    requires
        t.nested(),
        t.has(i),
        i <= j < t.after(i),
        forall|k: int| i <= k < j && j < #[trigger] t.after(k) ==> !(is_typed(t, k)),
        own_type_refs(t, file, j).contains(x),
    ensures
        type_refs_at(t, file, i).contains(x),
    decreases t.left(i), 0nat,
{
    if i == j {
        in_either(own_type_refs(t, file, i), type_refs_in(t, file, i + 1, t.after(i)), x);
    } else {
        assert(i < t.after(i));
        type_refs_in_reaches(t, file, i + 1, t.after(i), j, x);
        in_either(own_type_refs(t, file, i), type_refs_in(t, file, i + 1, t.after(i)), x);
    }
}

proof fn type_refs_in_reaches(
    t: Syntax,
    file: Seq<char>,
    lo: int,
    hi: int,
    j: int,
    x: ReferenceView,
)
    requires
        t.nested(),
        t.closed_range(lo, hi),
        lo <= j < hi,
        forall|k: int| lo <= k < j && j < #[trigger] t.after(k) ==> !(is_typed(t, k)),
        own_type_refs(t, file, j).contains(x),
    ensures
        type_refs_in(t, file, lo, hi).contains(x),
    decreases t.left(lo), 1nat,
{
    if j < t.after(lo) {
        type_refs_at_reaches(t, file, lo, j, x);
    } else {
        type_refs_in_reaches(t, file, t.next(lo, hi), hi, j, x);
    }
    in_either(type_refs_at(t, file, lo), type_refs_in(t, file, t.next(lo, hi), hi), x);
}

proof fn type_refs_reported(
    t: Syntax,
    file: Seq<char>,
    found: Seq<Seq<CaptureView>>,
    i: int,
    r: ReferenceView,
)
    requires
        t.nested(),
        0 <= i < t.after(0),
        forall|k: int| 0 <= k < i && i < #[trigger] t.after(k) ==> !is_typed(t, k),
        own_type_refs(t, file, i).contains(r),
    ensures
        reported(facts_of(t, file, found), r),
{
    type_refs_at_reaches(t, file, 0, i, r);
    in_either(calls(t.source, file, found) + imports_at(t, file, 0), type_refs_at(t, file, 0), r);
    in_either(
        calls(t.source, file, found) + imports_at(t, file, 0) + type_refs_at(t, file, 0),
        reads_at(t, file, 0),
        r,
    );
    in_either(
        calls(t.source, file, found) + imports_at(t, file, 0) + type_refs_at(t, file, 0)
            + reads_at(t, file, 0),
        writes_at(t, file, 0),
        r,
    );
    is_reported(facts_of(t, file, found), references_of(t, file, found), r);
}

/// A parameter refers to each type name that its type leads to. One below
/// another parameter or a field is part of that one.
pub proof fn parameter_types_are_referred_to(
    t: Syntax,
    file: Seq<char>,
    found: Seq<Seq<CaptureView>>,
    i: int,
    ty: int,
    n: int,
    at: TypeRefContext,
)
    requires
        t.nested(),
        0 <= i < t.after(0),
        t.kind(i) == "parameter_declaration"@ || t.kind(i) == "variadic_parameter_declaration"@,
        t.child(i, "type"@) == Some(ty),
        leads_to(t, ty, TypeRefContext::ParameterType, n, at),
        !is_below(t, "parameter_declaration"@, i),
        !is_below(t, "variadic_parameter_declaration"@, i),
        !is_below(t, "field_declaration"@, i),
    ensures
        refers_to_type(facts_of(t, file, found), t, n, t.text(n), at),
{
    own_type_refs_kinds();
    leaves_are_found(t, file, ty, TypeRefContext::ParameterType, n, at);
    let x = type_reference_at(t, file, n, t.text(n), at);
    type_refs_reported(t, file, found, i, x);
}

/// A field refers to each type name that its type leads to.
pub proof fn field_types_are_referred_to(
    t: Syntax,
    file: Seq<char>,
    found: Seq<Seq<CaptureView>>,
    i: int,
    ty: int,
    n: int,
    at: TypeRefContext,
)
    requires
        t.nested(),
        0 <= i < t.after(0),
        t.kind(i) == "field_declaration"@,
        t.child(i, "type"@) == Some(ty),
        leads_to(t, ty, TypeRefContext::Field, n, at),
        !is_below(t, "parameter_declaration"@, i),
        !is_below(t, "variadic_parameter_declaration"@, i),
        !is_below(t, "field_declaration"@, i),
    ensures
        refers_to_type(facts_of(t, file, found), t, n, t.text(n), at),
{
    own_type_refs_kinds();
    leaves_are_found(t, file, ty, TypeRefContext::Field, n, at);
    let x = type_reference_at(t, file, n, t.text(n), at);
    type_refs_reported(t, file, found, i, x);
}

/// A function or method refers to each type name that its single result leads
/// to.
pub proof fn result_types_are_referred_to(
    t: Syntax,
    file: Seq<char>,
    found: Seq<Seq<CaptureView>>,
    i: int,
    ty: int,
    n: int,
    at: TypeRefContext,
)
    requires
        t.nested(),
        0 <= i < t.after(0),
        t.kind(i) == "function_declaration"@ || t.kind(i) == "method_declaration"@,
        t.child(i, "result"@) == Some(ty),
        t.kind(ty) != "parameter_list"@,
        leads_to(t, ty, TypeRefContext::ReturnType, n, at),
        !is_below(t, "parameter_declaration"@, i),
        !is_below(t, "variadic_parameter_declaration"@, i),
        !is_below(t, "field_declaration"@, i),
    ensures
        refers_to_type(facts_of(t, file, found), t, n, t.text(n), at),
{
    own_type_refs_kinds();
    leaves_are_found(t, file, ty, TypeRefContext::ReturnType, n, at);
    let x = type_reference_at(t, file, n, t.text(n), at);
    type_refs_reported(t, file, found, i, x);
}

/// A function or method refers to each type name that one of several results
/// leads to, whether the result has a name or not.
pub proof fn listed_result_types_are_referred_to(
    t: Syntax,
    file: Seq<char>,
    found: Seq<Seq<CaptureView>>,
    i: int,
    list: int,
    r: int,
    ty: int,
    n: int,
    at: TypeRefContext,
)
    requires
        t.nested(),
        0 <= i < t.after(0),
        t.kind(i) == "function_declaration"@ || t.kind(i) == "method_declaration"@,
        t.child(i, "result"@) == Some(list),
        t.kind(list) == "parameter_list"@,
        t.has_child(list, r),
        t.named(r),
        (t.kind(r) == "parameter_declaration"@ && t.child(r, "type"@) == Some(ty))
            || (t.kind(r) != "parameter_declaration"@ && r == ty),
        leads_to(t, ty, TypeRefContext::ReturnType, n, at),
        !is_below(t, "parameter_declaration"@, i),
        !is_below(t, "variadic_parameter_declaration"@, i),
        !is_below(t, "field_declaration"@, i),
    ensures
        refers_to_type(facts_of(t, file, found), t, n, t.text(n), at),
{
    own_type_refs_kinds();
    reached_is_behind(t, list + 1, t.after(list), r);
    leaves_are_found(t, file, ty, TypeRefContext::ReturnType, n, at);
    results_in_has(
        t,
        file,
        list + 1,
        t.after(list),
        r,
        type_reference_at(t, file, n, t.text(n), at),
    );
    let x = type_reference_at(t, file, n, t.text(n), at);
    type_refs_reported(t, file, found, i, x);
}

proof fn bindings_at_reaches(t: Syntax, scopes: Seq<Scope>, i: int, j: int, x: BindingView)
    requires
        t.nested(),
        t.has(i),
        i <= j < t.after(i),
        !is_spec(t, j),
        !is_below(t, "identifier"@, j),
        introduced(t, scopes, j).contains(x),
    ensures
        bindings_at(t, scopes, i).contains(x),
    decreases t.left(i), 0nat,
{
    if is_spec(t, i) {
        spec_parts_in_reaches(t, scopes, i, i + 1, t.after(i), 0, j, x);
    } else {
        if i != j {
            bindings_in_reaches(t, scopes, i + 1, t.after(i), j, x);
        }
        in_either(introduced(t, scopes, i), bindings_in(t, scopes, i + 1, t.after(i)), x);
    }
}

proof fn bindings_in_reaches(
    t: Syntax,
    scopes: Seq<Scope>,
    lo: int,
    hi: int,
    j: int,
    x: BindingView,
)
    requires
        t.nested(),
        t.closed_range(lo, hi),
        lo <= j < hi,
        !is_spec(t, j),
        !is_below(t, "identifier"@, j),
        introduced(t, scopes, j).contains(x),
    ensures
        bindings_in(t, scopes, lo, hi).contains(x),
    decreases t.left(lo), 1nat,
{
    if j < t.after(lo) {
        bindings_at_reaches(t, scopes, lo, j, x);
    } else {
        bindings_in_reaches(t, scopes, t.next(lo, hi), hi, j, x);
    }
    in_either(bindings_at(t, scopes, lo), bindings_in(t, scopes, t.next(lo, hi), hi), x);
}

proof fn spec_parts_in_reaches(
    t: Syntax,
    scopes: Seq<Scope>,
    owner: int,
    lo: int,
    hi: int,
    k: int,
    j: int,
    x: BindingView,
)
    requires
        t.nested(),
        t.closed_range(lo, hi),
        lo <= j < hi,
        !is_spec(t, j),
        !is_below(t, "identifier"@, j),
        introduced(t, scopes, j).contains(x),
    ensures
        spec_parts_in(t, scopes, owner, lo, hi, k).contains(x),
    decreases t.left(lo), 1nat,
{
    if t.kind(lo) == "identifier"@ {
        introduced_kinds();
        assert(!(lo < j && j < t.after(lo)));
        assert(j != lo);
        spec_parts_in_reaches(t, scopes, owner, t.next(lo, hi), hi, k + 1, j, x);
        in_either(
            local_at(t, scopes, spec_type(t, owner, k), lo),
            spec_parts_in(t, scopes, owner, t.next(lo, hi), hi, k + 1),
            x,
        );
    } else {
        if j < t.after(lo) {
            bindings_at_reaches(t, scopes, lo, j, x);
        } else {
            spec_parts_in_reaches(t, scopes, owner, t.next(lo, hi), hi, k, j, x);
        }
        in_either(
            bindings_at(t, scopes, lo),
            spec_parts_in(t, scopes, owner, t.next(lo, hi), hi, k),
            x,
        );
    }
}

proof fn bindings_reported(
    t: Syntax,
    file: Seq<char>,
    found: Seq<Seq<CaptureView>>,
    i: int,
    b: BindingView,
)
    requires
        t.nested(),
        0 <= i < t.after(0),
        !is_spec(t, i),
        !is_below(t, "identifier"@, i),
        introduced(t, facts_of(t, file, found).scopes, i).contains(b),
    ensures
        facts_of(t, file, found).bindings.contains(b),
{
    bindings_at_reaches(t, facts_of(t, file, found).scopes, 0, i, b);
    starts_with(
        facts_of(t, file, found).bindings,
        bindings_at(t, facts_of(t, file, found).scopes, 0),
        b,
    );
}

/// Whether the type `i` has the name `n`: it is that name, or that of what a pointer
/// points to, of the end of a qualified name or of the base of a generic type.
pub open spec fn has_name(t: Syntax, i: int, n: int) -> bool
    decreases n - i,
{
    if i >= n {
        i == n && t.kind(i) == "type_identifier"@
    } else if t.kind(i) == "qualified_type"@ {
        t.child(i, "name"@) matches Some(c) && i < c <= n && has_name(t, c, n)
    } else if t.kind(i) == "generic_type"@ {
        t.child(i, "type"@) matches Some(c) && i < c <= n && has_name(t, c, n)
    } else if t.kind(i) == "pointer_type"@ {
        !t.named(i + 1) && t.after(i + 1) == i + 2 && i + 2 < t.after(i) && t.named(i + 2)
            && i + 2 <= n && has_name(t, i + 2, n)
    } else {
        false
    }
}

proof fn name_is_leaf(t: Syntax, i: int, n: int)
    requires
        t.has(i),
        has_name(t, i, n),
    ensures
        type_leaf_name(t, i) == Some(t.text(n)),
    decreases n - i,
{
    type_leaf_name_kinds();
    if i < n {
        if t.kind(i) == "qualified_type"@ {
            name_is_leaf(t, t.child(i, "name"@)->0, n);
        } else if t.kind(i) == "generic_type"@ {
            name_is_leaf(t, t.child(i, "type"@)->0, n);
        } else {
            name_is_leaf(t, i + 2, n);
            assert(type_leaf_name_in(t, i + 2, t.after(i)) == Some(t.text(n)));
            assert(type_leaf_name_in(t, i + 1, t.after(i)) == type_leaf_name_in(
                t,
                i + 2,
                t.after(i),
            ));
        }
    }
}

/// Each name but `_` of a parameter is bound in the innermost scope at its
/// place, be it a parameter of a function, a method or a function literal, or a
/// receiver. It has the type that it is declared with.
pub proof fn parameters_are_bound(
    t: Syntax,
    file: Seq<char>,
    found: Seq<Seq<CaptureView>>,
    i: int,
    list: int,
    p: int,
    n: int,
)
    requires
        t.nested(),
        0 <= i < t.after(0),
        t.kind(i) == "function_declaration"@ || t.kind(i) == "method_declaration"@
            || t.kind(i) == "func_literal"@,
        t.child(i, "parameters"@) == Some(list) || t.child(i, "receiver"@) == Some(list),
        t.has_child(list, p),
        t.named(p),
        t.kind(p) == "parameter_declaration"@ || t.kind(p) == "variadic_parameter_declaration"@,
        t.has_child(p, n),
        t.kind(n) == "identifier"@,
        t.text(n) != "_"@,
        facts_of(t, file, found).scopes.len() <= usize::MAX,
        !is_below(t, "identifier"@, i),
    ensures
        binds(facts_of(t, file, found), t.text(n), t.start(n), BindingKind::Param),
        forall|m: int| t.child(p, "type"@) is Some
            && #[trigger] has_name(t, t.child(p, "type"@)->0, m)
            ==> binds_as(
                facts_of(t, file, found),
                t.text(n),
                t.start(n),
                BindingKind::Param,
                t.text(m),
            ),
{
    introduced_kinds();
    is_spec_kinds();
    let scopes = facts_of(t, file, found).scopes;
    let b = local_binding(scopes, t.text(n), t.start(n), BindingKind::Param, typed_name(t, p));
    reached_is_behind(t, list + 1, t.after(list), p);
    assert(seq![b][0] == b);
    param_names_in_has(t, scopes, p, p + 1, t.after(p), n, b);
    params_in_has(t, scopes, list + 1, t.after(list), p, b);
    let own = match t.child(i, "parameters"@) {
        Some(params) => params_in(t, scopes, params + 1, t.after(params)),
        None => Seq::empty(),
    };
    let received = match t.child(i, "receiver"@) {
        Some(receiver) => params_in(t, scopes, receiver + 1, t.after(receiver)),
        None => Seq::empty(),
    };
    in_either(own, received, b);
    let scopes = facts_of(t, file, found).scopes;
    let x = local_binding(scopes, t.text(n), t.start(n), BindingKind::Param, typed_name(t, p));
    bindings_reported(t, file, found, i, x);
    local_is_bound(
        facts_of(t, file, found),
        t.text(n),
        t.start(n),
        BindingKind::Param,
        typed_name(t, p),
    );
    assert forall|m: int| t.child(p, "type"@) is Some && #[trigger] has_name(t, t.child(p, "type"@)->0, m) implies binds_as(facts_of(t, file, found), t.text(n), t.start(n), BindingKind::Param, t.text(m)) by {
        name_is_leaf(t, t.child(p, "type"@)->0, m);
    }
}

proof fn short_local_is_found(
    t: Syntax,
    scopes: Seq<Scope>,
    values: Option<int>,
    lo: int,
    hi: int,
    k: int,
    n: int,
) -> (ty: Option<Seq<char>>)
    requires
        t.reaches(lo, hi, n),
        t.kind(n) == "identifier"@,
        t.text(n) != "_"@,
        !at_file_level(scopes, t.start(n)),
    ensures
        short_locals_in(t, scopes, values, lo, hi, k).contains(
            local_binding(scopes, t.text(n), t.start(n), BindingKind::Local, ty),
        ),
    decreases hi - lo,
{
    let own = local_at(t, scopes, value_type(t, values, k), lo);
    let k2: int = if t.kind(lo) == "identifier"@ { k + 1 } else { k };
    let rest = short_locals_in(t, scopes, values, t.next(lo, hi), hi, k2);
    if lo == n {
        let ty = value_type(t, values, k);
        let b = local_binding(scopes, t.text(n), t.start(n), BindingKind::Local, ty);
        assert(own[0] == b);
        in_either(own, rest, b);
        ty
    } else {
        let ty = short_local_is_found(t, scopes, values, t.next(lo, hi), hi, k2, n);
        let b = local_binding(scopes, t.text(n), t.start(n), BindingKind::Local, ty);
        in_either(own, rest, b);
        ty
    }
}

/// Each name but `_` on the left of a short variable declaration or of a range
/// clause inside a function is bound in the innermost scope at its place.
pub proof fn short_variables_are_bound(
    t: Syntax,
    file: Seq<char>,
    found: Seq<Seq<CaptureView>>,
    i: int,
    left: int,
    n: int,
)
    requires
        t.nested(),
        0 <= i < t.after(0),
        t.kind(i) == "short_var_declaration"@ || t.kind(i) == "range_clause"@,
        t.child(i, "left"@) == Some(left),
        t.has_child(left, n),
        t.kind(n) == "identifier"@,
        t.text(n) != "_"@,
        !outside_code(facts_of(t, file, found).scopes, t.start(n)),
        facts_of(t, file, found).scopes.len() <= usize::MAX,
        !is_below(t, "identifier"@, i),
    ensures
        binds(facts_of(t, file, found), t.text(n), t.start(n), BindingKind::Local),
{
    introduced_kinds();
    is_spec_kinds();
    let scopes = facts_of(t, file, found).scopes;
    if at_file_level(scopes, t.start(n)) {
        file_level_is_outside(scopes, t.start(n));
    }
    let ty = if t.kind(i) == "short_var_declaration"@ {
        short_local_is_found(t, scopes, t.child(i, "right"@), left + 1, t.after(left), 0, n)
    } else {
        None
    };
    let b = local_binding(scopes, t.text(n), t.start(n), BindingKind::Local, ty);
    if t.kind(i) == "range_clause"@ {
        assert(local_at(t, scopes, None, n)[0] == b);
        ranged_in_has(t, scopes, left + 1, t.after(left), n, b);
    }
    bindings_reported(t, file, found, i, b);
    local_is_bound(facts_of(t, file, found), t.text(n), t.start(n), BindingKind::Local, ty);
}

proof fn spec_is_reached(t: Syntax, scopes: Seq<Scope>, i: int, j: int, x: BindingView)
    requires
        t.nested(),
        t.has(i),
        i <= j < t.after(i),
        is_spec(t, j),
        !is_below(t, "identifier"@, j),
        spec_parts_in(t, scopes, j, j + 1, t.after(j), 0).contains(x),
    ensures
        bindings_at(t, scopes, i).contains(x),
    decreases t.left(i), 0nat,
{
    if i != j {
        if is_spec(t, i) {
            spec_is_reached_in_spec(t, scopes, i, i + 1, t.after(i), 0, j, x);
        } else {
            spec_is_reached_in(t, scopes, i + 1, t.after(i), j, x);
            in_either(introduced(t, scopes, i), bindings_in(t, scopes, i + 1, t.after(i)), x);
        }
    }
}

proof fn spec_is_reached_in(t: Syntax, scopes: Seq<Scope>, lo: int, hi: int, j: int, x: BindingView)
    requires
        t.nested(),
        t.closed_range(lo, hi),
        lo <= j < hi,
        is_spec(t, j),
        !is_below(t, "identifier"@, j),
        spec_parts_in(t, scopes, j, j + 1, t.after(j), 0).contains(x),
    ensures
        bindings_in(t, scopes, lo, hi).contains(x),
    decreases t.left(lo), 1nat,
{
    if j < t.after(lo) {
        spec_is_reached(t, scopes, lo, j, x);
    } else {
        spec_is_reached_in(t, scopes, t.next(lo, hi), hi, j, x);
    }
    in_either(bindings_at(t, scopes, lo), bindings_in(t, scopes, t.next(lo, hi), hi), x);
}

proof fn spec_is_reached_in_spec(
    t: Syntax,
    scopes: Seq<Scope>,
    owner: int,
    lo: int,
    hi: int,
    k: int,
    j: int,
    x: BindingView,
)
    requires
        t.nested(),
        t.closed_range(lo, hi),
        lo <= j < hi,
        is_spec(t, j),
        !is_below(t, "identifier"@, j),
        spec_parts_in(t, scopes, j, j + 1, t.after(j), 0).contains(x),
    ensures
        spec_parts_in(t, scopes, owner, lo, hi, k).contains(x),
    decreases t.left(lo), 1nat,
{
    if t.kind(lo) == "identifier"@ {
        is_spec_kinds();
        assert(!(lo < j && j < t.after(lo)));
        assert(j != lo);
        spec_is_reached_in_spec(t, scopes, owner, t.next(lo, hi), hi, k + 1, j, x);
        in_either(
            local_at(t, scopes, spec_type(t, owner, k), lo),
            spec_parts_in(t, scopes, owner, t.next(lo, hi), hi, k + 1),
            x,
        );
    } else {
        if j < t.after(lo) {
            spec_is_reached(t, scopes, lo, j, x);
        } else {
            spec_is_reached_in_spec(t, scopes, owner, t.next(lo, hi), hi, k, j, x);
        }
        in_either(
            bindings_at(t, scopes, lo),
            spec_parts_in(t, scopes, owner, t.next(lo, hi), hi, k),
            x,
        );
    }
}

proof fn spec_local_is_found(
    t: Syntax,
    scopes: Seq<Scope>,
    owner: int,
    lo: int,
    hi: int,
    k: int,
    n: int,
) -> (ty: Option<Seq<char>>)
    requires
        0 <= lo,
        hi <= t.len(),
        t.reaches(lo, hi, n),
        t.kind(n) == "identifier"@,
        t.text(n) != "_"@,
        !at_file_level(scopes, t.start(n)),
    ensures
        spec_parts_in(t, scopes, owner, lo, hi, k).contains(
            local_binding(scopes, t.text(n), t.start(n), BindingKind::Local, ty),
        ),
    decreases hi - lo,
{
    let named = t.kind(lo) == "identifier"@;
    let own = if named { local_at(t, scopes, spec_type(t, owner, k), lo) } else { bindings_at(t, scopes, lo) };
    let k2: int = if named { k + 1 } else { k };
    let rest = spec_parts_in(t, scopes, owner, t.next(lo, hi), hi, k2);
    if lo == n {
        let ty = spec_type(t, owner, k);
        let b = local_binding(scopes, t.text(n), t.start(n), BindingKind::Local, ty);
        assert(own[0] == b);
        in_either(own, rest, b);
        ty
    } else {
        let ty = spec_local_is_found(t, scopes, owner, t.next(lo, hi), hi, k2, n);
        let b = local_binding(scopes, t.text(n), t.start(n), BindingKind::Local, ty);
        in_either(own, rest, b);
        ty
    }
}

/// Each name but `_` of a variable or constant specification inside a function
/// is bound in the innermost scope at its place.
pub proof fn specified_names_are_bound(
    t: Syntax,
    file: Seq<char>,
    found: Seq<Seq<CaptureView>>,
    i: int,
    n: int,
)
    requires
        t.nested(),
        0 <= i < t.after(0),
        t.kind(i) == "var_spec"@ || t.kind(i) == "const_spec"@,
        t.has_child(i, n),
        t.kind(n) == "identifier"@,
        t.text(n) != "_"@,
        !outside_code(facts_of(t, file, found).scopes, t.start(n)),
        facts_of(t, file, found).scopes.len() <= usize::MAX,
        !is_below(t, "identifier"@, i),
    ensures
        binds(facts_of(t, file, found), t.text(n), t.start(n), BindingKind::Local),
{
    let scopes = facts_of(t, file, found).scopes;
    if at_file_level(scopes, t.start(n)) {
        file_level_is_outside(scopes, t.start(n));
    }
    let ty = spec_local_is_found(t, scopes, i, i + 1, t.after(i), 0, n);
    let b = local_binding(scopes, t.text(n), t.start(n), BindingKind::Local, ty);
    spec_is_reached(t, scopes, 0, i, b);
    starts_with(facts_of(t, file, found).bindings, bindings_at(t, scopes, 0), b);
    local_is_bound(facts_of(t, file, found), t.text(n), t.start(n), BindingKind::Local, ty);
}

/// An assignment, whatever its operator, writes each identifier on its left.
pub proof fn assignments_write(
    t: Syntax,
    file: Seq<char>,
    found: Seq<Seq<CaptureView>>,
    i: int,
    left: int,
    n: int,
)
    requires
        t.nested(),
        0 <= i < t.after(0),
        t.kind(i) == "assignment_statement"@,
        t.child(i, "left"@) == Some(left),
        t.has_child(left, n),
        t.kind(n) == "identifier"@,
        long_enough(t.text(n)),
    ensures
        refers(facts_of(t, file, found), t, n, t.text(n), RefRole::Write),
{
    let w = reference_at(t, file, n, t.text(n), RefRole::Write);
    assert(write_to(t, file, n)[0] == w);
    writes_to_has(t, file, left + 1, t.after(left), n, w);
    let x = reference_at(t, file, n, t.text(n), RefRole::Write);
    writes_reported(t, file, found, i, x);
}

/// An identifier is read unless it is called, is the name of what its parent
/// declares, or stands in a list on the left of an assignment, a short variable
/// declaration or a range clause.
pub proof fn values_are_read(
    t: Syntax,
    file: Seq<char>,
    found: Seq<Seq<CaptureView>>,
    i: int,
    p: int,
)
    requires
        t.nested(),
        0 <= i < t.after(0),
        t.kind(i) == "identifier"@,
        long_enough(t.text(i)),
        t.parent(i) == Some(p),
        !(t.kind(p) == "call_expression"@ && t.in_field(i, "function"@)),
        !t.in_field(i, "name"@),
        t.kind(p) == "expression_list"@ ==> !t.in_field(p, "left"@),
        forall|j: int, k: int| t.has(j) && t.kind(j) == "identifier"@
            && j < k < #[trigger] t.after(j)
            ==> #[trigger] t.kind(k) != "identifier"@,
    ensures
        refers(facts_of(t, file, found), t, i, t.text(i), RefRole::Read),
{
    child_stands_in_field(t, p, "function"@);
    child_stands_in_field(t, p, "name"@);
    if let Some(q) = t.parent(p) {
        child_stands_in_field(t, q, "left"@);
    }
    let x = reference_at(t, file, i, t.text(i), RefRole::Read);
    assert(read_of(t, file, i)[0] == x);
    reads_reported(t, file, found, i, x);
}

/// An import refers to the last piece of its path, without the quotes around
/// it.
pub proof fn imports_are_reported(
    t: Syntax,
    file: Seq<char>,
    found: Seq<Seq<CaptureView>>,
    i: int,
    path: int,
)
    requires
        t.nested(),
        0 <= i < t.after(0),
        t.kind(i) == "import_spec"@,
        t.child(i, "path"@) == Some(path),
        forall|j: int, k: int| t.has(j) && t.kind(j) == "import_spec"@
            && j < k < #[trigger] t.after(j)
            ==> #[trigger] t.kind(k) != "import_spec"@,
    ensures
        refers(
            facts_of(t, file, found),
            t,
            path,
            simple_name(trimmed_of(trimmed_of(t.text(path), '"'), '`'), "/"@), RefRole::Import,
        ),
{
    let x = reference_at(
        t,
        file,
        path,
        simple_name(trimmed_of(trimmed_of(t.text(path), '"'), '`'), "/"@), RefRole::Import,
    );
    assert(import_of(t, file, i)[0] == x);
    imports_reported(t, file, found, i, x);
}

/// A method at the top of a Go file stands in the type of its receiver.
pub proof fn methods_stand_in_their_receivers(
    t: Syntax,
    file: Seq<char>,
    found: Seq<Seq<CaptureView>>,
    i: int,
    n: int,
    r: int,
    p: int,
    ty: int,
    m: int,
)
    requires
        t.nested(),
        t.has_child(0, i),
        t.has(i),
        t.kind(i) == "method_declaration"@,
        t.child(i, "name"@) == Some(n),
        t.child(i, "receiver"@) == Some(r),
        t.named_child_of_kind(r, "parameter_declaration"@) == Some(p),
        t.child(p, "type"@) == Some(ty),
        has_name(t, ty, m),
    ensures
        defines_under(
            facts_of(t, file, found),
            t,
            i,
            t.text(n),
            SymbolKind::Method,
            namespace_steps(namespaces_of(t, file))
                + seq![DescriptorView::Type(t.text(m)), DescriptorView::Method { name: t.text(n), disambiguator: Seq::empty() }],
        ),
{
    symbols_at_kinds();
    let c = context(t, file);
    let prefix = steps(t, file);
    name_is_leaf(t, ty, m);
    let x = symbols_at(c, prefix, package_of(t) == Some("main"@), i)[0];
    assert(x.id =~= prefix + seq![DescriptorView::Type(t.text(m)), method_view(t.text(n))]);
    assert(symbols_at(c, prefix, package_of(t) == Some("main"@), i).contains(x));
    symbols_in_has(c, prefix, package_of(t) == Some("main"@), 1, t.after(0), i, x);
    starts_with(
        facts_of(t, file, found).symbols,
        symbols_in(c, prefix, package_of(t) == Some("main"@), 1, t.after(0)),
        x,
    );
}

// ── Scopes ───────────────────────────────────────────────────────────────────

/// Whether a node opens a scope for what stands in it.
pub open spec fn is_holder(t: Syntax, k: int) -> bool {
    ||| t.kind(k) == "function_declaration"@
    ||| t.kind(k) == "method_declaration"@
    ||| t.kind(k) == "func_literal"@
}

/// The kind of the scope that a node opens.
pub open spec fn scope_kind(t: Syntax, k: int) -> ScopeKind {
    if t.kind(k) == "function_declaration"@ || t.kind(k) == "method_declaration"@
        || t.kind(k) == "func_literal"@ {
        ScopeKind::Function
    } else {
        ScopeKind::Block
    }
}

/// Whether a node is the body of a holder.
pub open spec fn is_held(t: Syntax, k: int) -> bool {
    exists|p: int| #![trigger t.child(p, "body"@)] 0 <= p < k && is_holder(t, p)
        && t.child(p, "body"@) == Some(k)
}

/// Whether a node opens a scope of its own: a holder, or a block that is not the
/// body of one.
pub open spec fn opens(t: Syntax, k: int) -> bool {
    (is_holder(t, k) || t.kind(k) == "block"@) && !is_held(t, k)
}

/// Whether node `j` stands in the body of the holder `k`.
pub open spec fn is_inside(t: Syntax, k: int, j: int) -> bool {
    t.child(k, "body"@) matches Some(b) && b < j < t.after(b)
}

/// Whether `outer` is the innermost node from `from` on that opens a scope around
/// node `j`.
pub open spec fn is_nearest(t: Syntax, from: int, j: int, outer: Option<int>) -> bool {
    match outer {
        Some(a) => from <= a < j && j < t.after(a) && opens(t, a) && forall|k: int| a < k < j
            && j < #[trigger] t.after(k)
            ==> !opens(t, k),
        None => forall|k: int| from <= k < j && j < #[trigger] t.after(k) ==> !opens(t, k),
    }
}

proof fn scopes_are_kept(t: Syntax, i: int, parent: ScopeId, scopes: Seq<Scope>)
    ensures
        extends(scopes_with(t, i, parent, scopes), scopes),
        t.has(i) && (is_holder(t, i) || t.kind(i) == "block"@)
            ==> extends(
                scopes_with(t, i, parent, scopes),
                scopes.push(
                    Scope { parent: Some(parent), span: span_at(t, i), kind: scope_kind(t, i) },
                ),
            ),
    decreases t.left(i), 0nat,
{
    if t.has(i) {
        scopes_with_kinds();
        let opened = scopes.push(
            Scope { parent: Some(parent), span: span_at(t, i), kind: scope_kind(t, i) },
        );
        let id = scopes.len() as usize;
        if is_holder(t, i) {
            if let Some(body) = t.child(i, "body"@) {
                scopes_are_kept_in(t, body + 1, t.after(body), id, opened);
            }
        } else if t.kind(i) == "block"@ {
            scopes_are_kept_in(t, i + 1, t.after(i), id, opened);
        } else {
            scopes_are_kept_in(t, i + 1, t.after(i), parent, scopes);
        }
    }
}

proof fn scopes_are_kept_in(t: Syntax, lo: int, hi: int, parent: ScopeId, scopes: Seq<Scope>)
    ensures
        extends(scopes_with_all(t, lo, hi, parent, scopes), scopes),
    decreases t.left(lo), 1nat,
{
    if lo < hi && t.has(lo) {
        scopes_are_kept(t, lo, parent, scopes);
        scopes_are_kept_in(t, t.next(lo, hi), hi, parent, scopes_with(t, lo, parent, scopes));
    }
}

proof fn scope_is_opened(
    t: Syntax,
    i: int,
    parent: ScopeId,
    scopes: Seq<Scope>,
    j: int,
    outer: Option<int>,
)
    requires
        t.nested(),
        t.linked(),
        t.has(i),
        i <= j < t.after(i),
        forall|k: int| #[trigger] is_holder(t, k) ==> !is_held(t, k),
        opens(t, j),
        !is_held(t, i),
        forall|k: int| i <= k < j && j < #[trigger] t.after(k) && is_holder(t, k)
            ==> is_inside(t, k, j),
        is_nearest(t, i, j, outer),
        scopes_with(t, i, parent, scopes).len() <= usize::MAX,
    ensures
        opens_scope(
            scopes_with(t, i, parent, scopes),
            scopes.len() as int,
            t,
            j,
            scope_kind(t, j),
            parent,
            outer,
        ),
    decreases t.left(i), 0nat,
{
    scopes_with_kinds();
    let opened = scopes.push(
        Scope { parent: Some(parent), span: span_at(t, i), kind: scope_kind(t, i) },
    );
    let id = scopes.len() as usize;
    let after = scopes_with(t, i, parent, scopes);
    scopes_are_kept(t, i, parent, scopes);
    if i == j {
        assert(after[scopes.len() as int] == opened[scopes.len() as int]);
    } else {
        let inner = if outer == Some(i) { None } else { outer };
        if is_holder(t, i) {
            assert(opens(t, i));
            assert(after[id as int] == opened[id as int]);
            assert(is_inside(t, i, j));
            let b = t.child(i, "body"@)->0;
            field_is_child(t, i, "body"@);
            assert(is_held(t, b));
            assert forall|k: int| i < k < j && j < #[trigger] t.after(k) implies k >= b by {
                if k < b {
                    earlier_ends_before(t, i + 1, t.after(i), b, k);
                }
            }
            assert forall|c: int| #[trigger] t.reaches(b + 1, t.after(b), c) implies !is_held(t, c) by {
                assert(t.has_child(b, c));
                if is_held(t, c) {
                    let p = choose|p: int| #![trigger t.child(p, "body"@)] 0 <= p < c
                        && is_holder(t, p) && t.child(p, "body"@) == Some(c);
                    field_is_child(t, p, "body"@);
                }
            }
            scope_is_opened_in(t, b + 1, t.after(b), id, opened, j, inner);
            scope_is_within(after, t, i, j, scope_kind(t, j), id, parent, inner, outer);
        } else if t.kind(i) == "block"@ {
            assert(opens(t, i));
            assert(after[id as int] == opened[id as int]);
            assert forall|c: int| #[trigger] t.reaches(i + 1, t.after(i), c) implies !is_held(t, c) by {
                assert(t.has_child(i, c));
                if is_held(t, c) {
                    let p = choose|p: int| #![trigger t.child(p, "body"@)] 0 <= p < c
                        && is_holder(t, p) && t.child(p, "body"@) == Some(c);
                    field_is_child(t, p, "body"@);
                }
            }
            scope_is_opened_in(t, i + 1, t.after(i), id, opened, j, inner);
            scope_is_within(after, t, i, j, scope_kind(t, j), id, parent, inner, outer);
        } else {
            assert(!opens(t, i));
            assert forall|c: int| #[trigger] t.reaches(i + 1, t.after(i), c) implies !is_held(t, c) by {
                assert(t.has_child(i, c));
                if is_held(t, c) {
                    let p = choose|p: int| #![trigger t.child(p, "body"@)] 0 <= p < c
                        && is_holder(t, p) && t.child(p, "body"@) == Some(c);
                    field_is_child(t, p, "body"@);
                }
            }
            scope_is_opened_in(t, i + 1, t.after(i), parent, scopes, j, outer);
        }
    }
}

proof fn scope_is_opened_in(
    t: Syntax,
    lo: int,
    hi: int,
    parent: ScopeId,
    scopes: Seq<Scope>,
    j: int,
    outer: Option<int>,
)
    requires
        t.nested(),
        t.linked(),
        t.closed_range(lo, hi),
        lo <= j < hi,
        forall|k: int| #[trigger] is_holder(t, k) ==> !is_held(t, k),
        opens(t, j),
        forall|c: int| #[trigger] t.reaches(lo, hi, c) ==> !is_held(t, c),
        forall|k: int| lo <= k < j && j < #[trigger] t.after(k) && is_holder(t, k)
            ==> is_inside(t, k, j),
        is_nearest(t, lo, j, outer),
        scopes_with_all(t, lo, hi, parent, scopes).len() <= usize::MAX,
    ensures
        opens_scope(
            scopes_with_all(t, lo, hi, parent, scopes),
            scopes.len() as int,
            t,
            j,
            scope_kind(t, j),
            parent,
            outer,
        ),
    decreases t.left(lo), 1nat,
{
    let next = t.next(lo, hi);
    assert(t.reaches(lo, hi, lo));
    assert forall|c: int| #[trigger] t.reaches(next, hi, c) implies t.reaches(lo, hi, c) by {}
    let first = scopes_with(t, lo, parent, scopes);
    let all = scopes_with_all(t, lo, hi, parent, scopes);
    scopes_are_kept(t, lo, parent, scopes);
    scopes_are_kept_in(t, next, hi, parent, first);
    if j < t.after(lo) {
        scope_is_opened(t, lo, parent, scopes, j, outer);
        opens_scope_stays(
            first,
            all,
            scopes.len() as int,
            scopes.len() as int,
            t,
            j,
            scope_kind(t, j),
            parent,
            outer,
        );
    } else {
        nearest_is_later(t, lo, next, j, outer);
        scope_is_opened_in(t, next, hi, parent, first, j, outer);
        opens_scope_stays(
            all,
            all,
            first.len() as int,
            scopes.len() as int,
            t,
            j,
            scope_kind(t, j),
            parent,
            outer,
        );
    }
}

proof fn nearest_is_later(t: Syntax, lo: int, next: int, j: int, outer: Option<int>)
    requires
        t.nested(),
        0 <= lo < t.len(),
        next == t.after(lo),
        next <= j,
        is_nearest(t, lo, j, outer),
    ensures
        is_nearest(t, next, j, outer),
{
    if let Some(a) = outer {
        if a < next {
            assert(t.after(a) <= t.after(lo));
        }
    }
}

/// A function, a method and a function literal open a scope of their own, and
/// so does each block that is not the body of one, where only bodies lie around
/// it. Its parent is the scope of the innermost of these around it, or that of
/// the file.
pub proof fn scopes_are_opened(
    t: Syntax,
    file: Seq<char>,
    found: Seq<Seq<CaptureView>>,
    j: int,
    outer: Option<int>,
)
    requires
        t.nested(),
        t.linked(),
        1 <= j < t.after(0),
        opens(t, j),
        forall|k: int| 1 <= k < j && j < #[trigger] t.after(k) && is_holder(t, k)
            ==> is_inside(t, k, j),
        forall|k: int| #[trigger] is_holder(t, k) ==> !is_held(t, k),
        !is_holder(t, 0),
        is_nearest(t, 1, j, outer),
        facts_of(t, file, found).scopes.len() <= usize::MAX,
    ensures
        opens_scope(facts_of(t, file, found).scopes, 1, t, j, scope_kind(t, j), 0, outer),
{
    let first = seq![module_scope(byte_count(t.source) as int)];
    assert forall|c: int| #[trigger] t.reaches(1, t.after(0), c) implies !is_held(t, c) by {
                assert(t.has_child(0, c));
                if is_held(t, c) {
                    let p = choose|p: int| #![trigger t.child(p, "body"@)] 0 <= p < c
                        && is_holder(t, p) && t.child(p, "body"@) == Some(c);
                    field_is_child(t, p, "body"@);
                }
            }
    scope_is_opened_in(t, 1, t.after(0), 0, first, j, outer);
}

// ── Modules ──────────────────────────────────────────────────────────────────

/// Each definition of a file stands in the module of the file where the file is
/// in a namespace: its identity extends that of the module.
pub proof fn definitions_stand_in_modules(
    t: Syntax,
    file: Seq<char>,
    found: Seq<Seq<CaptureView>>,
    k: int,
)
    requires
        0 <= k < facts_of(t, file, found).symbols.len() - 1,
        namespaces_of(t, file).len() > 0,
    ensures
        extends_module(facts_of(t, file, found), k),
{
    let c = context(t, file);
    let prefix = steps(t, file);
    let f = facts_of(t, file, found);
    definitions_belong(c, prefix, package_of(t) == Some("main"@), 1, t.after(0));
    let defs = symbols_in(c, prefix, package_of(t) == Some("main"@), 1, t.after(0));
    assert(f.symbols[k] == defs[k]);
    assert(f.symbols.last() == f.symbols[f.symbols.len() - 1]);
    assert(is_defined(c, prefix, defs[k]));
    assert(belongs(c, prefix, defs[k]));
}

proof fn write_is_target(t: Syntax, file: Seq<char>, lo: int, hi: int, k: int) -> (n: int)
    requires
        0 <= k < writes_to(t, file, lo, hi).len(),
    ensures
        t.reaches(lo, hi, n),
        t.kind(n) == "identifier"@,
        long_enough(t.text(n)),
        writes_to(t, file, lo, hi)[k] == reference_at(t, file, n, t.text(n), RefRole::Write),
    decreases hi - lo,
{
    let own = write_to(t, file, lo);
    if k < own.len() {
        lo
    } else {
        let n = write_is_target(t, file, t.next(lo, hi), hi, k - own.len());
        assert(t.reaches(lo, hi, n));
        n
    }
}

// ── Nothing else is read or written ──────────────────────────────────────────

/// Whether the identifier `i` below `p` stands as a value: it is not called, assigned
/// to or introduced there.
pub open spec fn is_value_below(t: Syntax, p: int, i: int) -> bool {
    &&& t.kind(p) == "call_expression"@ ==> !(t.child(p, "function"@) == Some(i))
    &&& t.kind(p) == "function_declaration"@ ==> !(t.child(p, "name"@) == Some(i))
    &&& t.kind(p) == "method_declaration"@ ==> !(t.child(p, "name"@) == Some(i))
    &&& t.kind(p) == "func_literal"@ ==> !(t.child(p, "name"@) == Some(i))
    &&& t.kind(p) == "const_spec"@ ==> !(t.in_field(i, "name"@))
    &&& t.kind(p) == "var_spec"@ ==> !(t.in_field(i, "name"@))
    &&& t.kind(p) == "parameter_declaration"@ ==> !(t.in_field(i, "name"@))
    &&& t.kind(p) == "variadic_parameter_declaration"@ ==> !(t.in_field(i, "name"@))
}

/// Each read of a file is of an identifier that is long enough and stands as a
/// value.
pub proof fn reads_are_values(t: Syntax, file: Seq<char>, k: int) -> (at: (int, int))
    requires
        t.nested(),
        t.has(0),
        identifiers_apart(t),
        0 <= k < reads_at(t, file, 0).len(),
    ensures
        0 <= at.1 < t.after(0),
        t.kind(at.1) == "identifier"@,
        long_enough(t.text(at.1)),
        t.parent(at.1) == Some(at.0),
        is_value_below(t, at.0, at.1),
        reads_at(t, file, 0)[k] == reference_at(t, file, at.1, t.text(at.1), RefRole::Read),
{
    reads_are_sound(t, file, k);
    let i = choose|i: int| 0 <= i < t.after(0) && #[trigger] is_read(t, i)
        && reads_at(t, file, 0)[k] == reference_at(t, file, i, t.text(i), RefRole::Read);
    let p = t.parent(i)->0;
    read_is_value(t, p, i);
    (p, i)
}

proof fn read_is_value(t: Syntax, p: int, i: int)
    requires
        t.parent(i) == Some(p),
        !not_read(t, i),
    ensures
        is_value_below(t, p, i),
{
    read_kinds();
}

proof fn read_kinds()
    ensures
        "call_expression"@ != "function_declaration"@,
        "call_expression"@ != "method_declaration"@,
        "call_expression"@ != "func_literal"@,
        "call_expression"@ != "const_spec"@,
        "call_expression"@ != "var_spec"@,
        "call_expression"@ != "parameter_declaration"@,
        "call_expression"@ != "variadic_parameter_declaration"@,
        "call_expression"@ != "expression_list"@,
        "function_declaration"@ != "method_declaration"@,
        "function_declaration"@ != "func_literal"@,
        "function_declaration"@ != "const_spec"@,
        "function_declaration"@ != "var_spec"@,
        "function_declaration"@ != "parameter_declaration"@,
        "function_declaration"@ != "variadic_parameter_declaration"@,
        "function_declaration"@ != "expression_list"@,
        "method_declaration"@ != "func_literal"@,
        "method_declaration"@ != "const_spec"@,
        "method_declaration"@ != "var_spec"@,
        "method_declaration"@ != "parameter_declaration"@,
        "method_declaration"@ != "variadic_parameter_declaration"@,
        "method_declaration"@ != "expression_list"@,
        "func_literal"@ != "const_spec"@,
        "func_literal"@ != "var_spec"@,
        "func_literal"@ != "parameter_declaration"@,
        "func_literal"@ != "variadic_parameter_declaration"@,
        "func_literal"@ != "expression_list"@,
        "const_spec"@ != "var_spec"@,
        "const_spec"@ != "parameter_declaration"@,
        "const_spec"@ != "variadic_parameter_declaration"@,
        "const_spec"@ != "expression_list"@,
        "var_spec"@ != "parameter_declaration"@,
        "var_spec"@ != "variadic_parameter_declaration"@,
        "var_spec"@ != "expression_list"@,
        "parameter_declaration"@ != "variadic_parameter_declaration"@,
        "parameter_declaration"@ != "expression_list"@,
        "variadic_parameter_declaration"@ != "expression_list"@,
{
    reveal_strlit("call_expression");
    reveal_strlit("function_declaration");
    reveal_strlit("method_declaration");
    reveal_strlit("func_literal");
    reveal_strlit("const_spec");
    reveal_strlit("var_spec");
    reveal_strlit("parameter_declaration");
    reveal_strlit("variadic_parameter_declaration");
    reveal_strlit("expression_list");
    assert("call_expression"@.len() == 15);
    assert("function_declaration"@.len() == 20);
    assert("method_declaration"@.len() == 18);
    assert("func_literal"@.len() == 12);
    assert("const_spec"@.len() == 10);
    assert("var_spec"@.len() == 8);
    assert("parameter_declaration"@.len() == 21);
    assert("variadic_parameter_declaration"@.len() == 30);
    assert("expression_list"@.len() == 15);
    assert("call_expression"@[0] != "expression_list"@[0]);
}

/// Whether node `n` is an identifier that is long enough and that node `i` assigns to.
pub open spec fn is_assigned(t: Syntax, i: int, n: int) -> bool {
    t.kind(n) == "identifier"@ && long_enough(t.text(n)) && t.kind(i) == "assignment_statement"@
        && (t.child(i, "left"@) matches Some(left) && t.has_child(left, n))
}

/// Each write of a file is of an identifier that is long enough and that an
/// assignment assigns to.
pub proof fn writes_are_targets(t: Syntax, file: Seq<char>, k: int) -> (at: (int, int))
    requires
        t.nested(),
        t.has(0),
        0 <= k < writes_at(t, file, 0).len(),
    ensures
        0 <= at.0 < t.after(0),
        is_assigned(t, at.0, at.1),
        writes_at(t, file, 0)[k] == reference_at(t, file, at.1, t.text(at.1), RefRole::Write),
{
    let items = writes_of_nodes(t, file);
    let is_one = |r: ReferenceView| exists|i: int, n: int| 0 <= i < t.after(0)
        && #[trigger] is_assigned(t, i, n)
        && r == reference_at(t, file, n, t.text(n), RefRole::Write);
    writes_in_document_order(t, file, 0);
    assert forall|i: int, e: int| 0 <= i < t.after(0) && 0 <= e < items(i).len() implies is_one(#[trigger] items(i)[e]) by {
        let list = t.child(i, "left"@)->0;
        let n = write_is_target(t, file, list + 1, t.after(list), e);
        assert(t.has_child(list, n));
        assert(is_assigned(t, i, n));
    }
    in_order_all(items, 0, t.after(0), is_one);
    assert(is_one(writes_at(t, file, 0)[k]));
    choose|i: int, n: int| 0 <= i < t.after(0) && #[trigger] is_assigned(t, i, n)
        && writes_at(t, file, 0)[k] == reference_at(t, file, n, t.text(n), RefRole::Write)
}

// ── Nothing else is defined ──────────────────────────────────────────────────

/// Whether node `i` is of a kind that declares symbols of the kind `kind`.
pub open spec fn declares(t: Syntax, i: int, kind: SymbolKind) -> bool {
    match kind {
        SymbolKind::Function => t.kind(i) == "function_declaration"@,
        SymbolKind::Method => t.kind(i) == "method_declaration"@,
        SymbolKind::Struct => t.kind(i) == "type_spec"@,
        SymbolKind::Interface => t.kind(i) == "type_spec"@,
        SymbolKind::TypeAlias => t.kind(i) == "type_spec"@ || t.kind(i) == "type_alias"@,
        SymbolKind::Const => t.kind(i) == "const_spec"@,
        SymbolKind::Static => t.kind(i) == "var_spec"@,
        _ => false,
    }
}

/// The characters at which the signature of a symbol of the kind `kind` at node
/// `i` ends.
pub open spec fn stops_at(t: Syntax, i: int, kind: SymbolKind) -> Seq<char> {
    "{"@
}

/// Whether a symbol stands at a node that declares symbols of its kind, and has the
/// words of the node up to where it stops for a signature.
pub open spec fn is_declared_by(c: Ctx, s: SymbolView) -> bool {
    exists|i: int| #![trigger occurrence_at(c.tree, c.file, i)] s.occ == occurrence_at(
        c.tree,
        c.file,
        i,
    )
        && s.span == span_at(c.tree, i) && declares(c.tree, i, s.kind)
        && s.signature == one_line(c.tree.text(i), stops_at(c.tree, i, s.kind))
}

/// Whether all symbols do.
pub open spec fn all_declared(c: Ctx, symbols: Seq<SymbolView>) -> bool {
    forall|k: int| 0 <= k < symbols.len() ==> is_declared_by(c, #[trigger] symbols[k])
}

proof fn types_in_declared(c: Ctx, prefix: Seq<DescriptorView>, lo: int, hi: int)
    ensures
        all_declared(c, types_in(c, prefix, lo, hi)),
    decreases hi - lo,
{
    if lo < hi {
        types_in_declared(c, prefix, c.tree.next(lo, hi), hi);
    }
}

proof fn names_in_declared(
    c: Ctx,
    prefix: Seq<DescriptorView>,
    owner: int,
    kind: SymbolKind,
    lo: int,
    hi: int,
)
    requires
        declares(c.tree, owner, kind),
    ensures
        all_declared(c, names_in(c, prefix, owner, kind, lo, hi)),
    decreases hi - lo,
{
    if lo < hi {
        names_in_declared(c, prefix, owner, kind, c.tree.next(lo, hi), hi);
    }
}

proof fn specs_in_declared(
    c: Ctx,
    prefix: Seq<DescriptorView>,
    spec_kind: Seq<char>,
    kind: SymbolKind,
    lo: int,
    hi: int,
)
    requires
        (spec_kind == "const_spec"@ && kind == SymbolKind::Const)
            || (spec_kind == "var_spec"@ && kind == SymbolKind::Static),
    ensures
        all_declared(c, specs_in(c, prefix, spec_kind, kind, lo, hi)),
    decreases hi - lo,
{
    if lo < hi {
        if c.tree.kind(lo) == spec_kind {
            names_in_declared(c, prefix, lo, kind, lo + 1, c.tree.after(lo));
        }
        specs_in_declared(c, prefix, spec_kind, kind, c.tree.next(lo, hi), hi);
    }
}

proof fn variables_in_declared(c: Ctx, prefix: Seq<DescriptorView>, lo: int, hi: int)
    ensures
        all_declared(c, variables_in(c, prefix, lo, hi)),
    decreases hi - lo,
{
    if lo < hi {
        if c.tree.kind(lo) == "var_spec_list"@ {
            specs_in_declared(c, prefix, "var_spec"@, SymbolKind::Static, lo + 1, c.tree.after(lo));
        } else if c.tree.kind(lo) == "var_spec"@ {
            names_in_declared(c, prefix, lo, SymbolKind::Static, lo + 1, c.tree.after(lo));
        }
        variables_in_declared(c, prefix, c.tree.next(lo, hi), hi);
    }
}

proof fn symbols_at_declared(c: Ctx, prefix: Seq<DescriptorView>, is_pkg_main: bool, i: int)
    ensures
        all_declared(c, symbols_at(c, prefix, is_pkg_main, i)),
{
    let kind = c.tree.kind(i);
    let hi = c.tree.after(i);
    if kind != "function_declaration"@ && kind != "method_declaration"@ {
        if kind == "type_declaration"@ {
            types_in_declared(c, prefix, i + 1, hi);
        } else if kind == "const_declaration"@ {
            specs_in_declared(c, prefix, "const_spec"@, SymbolKind::Const, i + 1, hi);
        } else if kind == "var_declaration"@ {
            variables_in_declared(c, prefix, i + 1, hi);
        }
    }
}

proof fn definitions_declared(
    c: Ctx,
    prefix: Seq<DescriptorView>,
    is_pkg_main: bool,
    lo: int,
    hi: int,
)
    ensures
        all_declared(c, symbols_in(c, prefix, is_pkg_main, lo, hi)),
    decreases hi - lo,
{
    if lo < hi {
        symbols_at_declared(c, prefix, is_pkg_main, lo);
        definitions_declared(c, prefix, is_pkg_main, c.tree.next(lo, hi), hi);
    }
}

/// Each definition of a file, but for that of its module, stands at a node that
/// declares symbols of its kind. Its signature is the text of the node on one
/// line, up to where it stops.
pub proof fn definitions_stand_at_declarations(
    t: Syntax,
    file: Seq<char>,
    found: Seq<Seq<CaptureView>>,
    k: int,
) -> (i: int)
    requires
        0 <= k < facts_of(t, file, found).symbols.len() - 1,
    ensures
        declares(t, i, facts_of(t, file, found).symbols[k].kind),
        is_at(facts_of(t, file, found).symbols[k].occ, file, t, i),
        facts_of(t, file, found).symbols[k].span.start == t.start(i) as usize,
        facts_of(t, file, found).symbols[k].span.end == t.end(i) as usize,
        facts_of(t, file, found).symbols[k].signature == one_line(
            t.text(i),
            stops_at(t, i, facts_of(t, file, found).symbols[k].kind),
        ),
{
    let c = context(t, file);
    let prefix = steps(t, file);
    let f = facts_of(t, file, found);
    definitions_declared(c, prefix, package_of(t) == Some("main"@), 1, t.after(0));
    let defs = symbols_in(c, prefix, package_of(t) == Some("main"@), 1, t.after(0));
    assert(f.symbols[k] == defs[k]);
    assert(is_declared_by(c, defs[k]));
    choose|i: int| #![trigger occurrence_at(t, file, i)] defs[k].occ == occurrence_at(t, file, i)
        && defs[k].span == span_at(t, i) && declares(t, i, defs[k].kind)
        && defs[k].signature == one_line(t.text(i), stops_at(t, i, defs[k].kind))
}

// ── No other type is referred to ─────────────────────────────────────────────

/// Whether node `i` names a type, by the name `name`.
pub open spec fn names_type(t: Syntax, i: int, name: Seq<char>) -> bool {
    t.kind(i) == "type_identifier"@ && name == t.text(i)
}

/// Whether a reference is to a type that a node names, and says where it stands.
pub open spec fn is_of_type(t: Syntax, file: Seq<char>, r: ReferenceView) -> bool {
    &&& r.role == RefRole::TypeRef
    &&& r.type_ref_ctx is Some
    &&& exists|i: int| #![trigger occurrence_at(t, file, i)] r.occ == occurrence_at(t, file, i)
        && names_type(t, i, r.name)
}

/// Whether all references are.
pub open spec fn all_of_types(t: Syntax, file: Seq<char>, references: Seq<ReferenceView>) -> bool {
    forall|k: int| 0 <= k < references.len() ==> is_of_type(t, file, #[trigger] references[k])
}

proof fn leaves_at_typed(t: Syntax, file: Seq<char>, ctx: TypeRefContext, i: int)
    ensures
        all_of_types(t, file, leaves_at(t, file, ctx, i)),
    decreases t.left(i), 0nat,
{
    let kind = t.kind(i);
    if t.has(i) && kind != "type_identifier"@ {
        if kind == "qualified_type"@ {
            if let Some(name) = t.child(i, "name"@) {
                leaves_at_typed(t, file, ctx, name);
            }
        } else if kind == "slice_type"@ || kind == "array_type"@ {
            if let Some(element) = t.child(i, "element"@) {
                leaves_at_typed(t, file, ctx, element);
            }
        } else if kind == "map_type"@ {
            if let Some(key) = t.child(i, "key"@) {
                leaves_at_typed(t, file, ctx, key);
            }
            if let Some(value) = t.child(i, "value"@) {
                leaves_at_typed(t, file, ctx, value);
            }
        } else if kind == "generic_type"@ {
            if let Some(base) = t.child(i, "type"@) {
                leaves_at_typed(t, file, ctx, base);
            }
            if let Some(args) = t.child(i, "type_arguments"@) {
                leaves_in_typed(t, file, TypeRefContext::GenericArg, args + 1, t.after(args));
            }
        } else if kind == "channel_type"@ {
            if let Some(value) = t.child(i, "value"@) {
                leaves_at_typed(t, file, ctx, value);
            }
        } else {
            leaves_in_typed(t, file, ctx, i + 1, t.after(i));
        }
    }
}

proof fn leaves_in_typed(t: Syntax, file: Seq<char>, ctx: TypeRefContext, lo: int, hi: int)
    ensures
        all_of_types(t, file, leaves_in(t, file, ctx, lo, hi)),
    decreases t.left(lo), 1nat,
{
    if lo < hi && t.has(lo) {
        if t.named(lo) {
            leaves_at_typed(t, file, ctx, lo);
        }
        leaves_in_typed(t, file, ctx, t.next(lo, hi), hi);
    }
}

proof fn typed_refs_typed(t: Syntax, file: Seq<char>, ctx: TypeRefContext, i: int)
    ensures
        all_of_types(t, file, typed_refs(t, file, ctx, i)),
{
    if let Some(ty) = t.child(i, "type"@) {
        leaves_at_typed(t, file, ctx, ty);
    }
}

proof fn results_in_typed(t: Syntax, file: Seq<char>, lo: int, hi: int)
    ensures
        all_of_types(t, file, results_in(t, file, lo, hi)),
    decreases hi - lo,
{
    if lo < hi {
        if t.named(lo) {
            if t.kind(lo) == "parameter_declaration"@ {
                typed_refs_typed(t, file, TypeRefContext::ReturnType, lo);
            } else {
                leaves_at_typed(t, file, TypeRefContext::ReturnType, lo);
            }
        }
        results_in_typed(t, file, t.next(lo, hi), hi);
    }
}

proof fn result_refs_typed(t: Syntax, file: Seq<char>, i: int)
    ensures
        all_of_types(t, file, result_refs(t, file, i)),
{
    if let Some(result) = t.child(i, "result"@) {
        if t.kind(result) == "parameter_list"@ {
            results_in_typed(t, file, result + 1, t.after(result));
        } else {
            leaves_at_typed(t, file, TypeRefContext::ReturnType, result);
        }
    }
}

proof fn own_type_refs_typed(t: Syntax, file: Seq<char>, i: int)
    ensures
        all_of_types(t, file, own_type_refs(t, file, i)),
{
    let kind = t.kind(i);
    if kind == "parameter_declaration"@ || kind == "variadic_parameter_declaration"@ {
        typed_refs_typed(t, file, TypeRefContext::ParameterType, i);
    } else if kind == "function_declaration"@ || kind == "method_declaration"@ {
        result_refs_typed(t, file, i);
    } else if kind == "field_declaration"@ {
        typed_refs_typed(t, file, TypeRefContext::Field, i);
    }
}

proof fn type_refs_at_typed(t: Syntax, file: Seq<char>, i: int)
    ensures
        all_of_types(t, file, type_refs_at(t, file, i)),
    decreases t.left(i), 0nat,
{
    if t.has(i) {
        if is_typed(t, i) {
            own_type_refs_typed(t, file, i);
        } else {
            own_type_refs_typed(t, file, i);
            type_refs_in_typed(t, file, i + 1, t.after(i));
        }
    }
}

proof fn type_refs_in_typed(t: Syntax, file: Seq<char>, lo: int, hi: int)
    ensures
        all_of_types(t, file, type_refs_in(t, file, lo, hi)),
    decreases t.left(lo), 1nat,
{
    if lo < hi && t.has(lo) {
        type_refs_at_typed(t, file, lo);
        type_refs_in_typed(t, file, t.next(lo, hi), hi);
    }
}

/// Each type reference of a file stands at a node that names a type.
pub proof fn type_references_name_types(t: Syntax, file: Seq<char>, k: int) -> (i: int)
    requires
        0 <= k < type_refs_at(t, file, 0).len(),
    ensures
        type_refs_at(t, file, 0)[k].role == RefRole::TypeRef,
        type_refs_at(t, file, 0)[k].type_ref_ctx is Some,
        is_at(type_refs_at(t, file, 0)[k].occ, file, t, i),
        names_type(t, i, type_refs_at(t, file, 0)[k].name),
{
    type_refs_at_typed(t, file, 0);
    let r = type_refs_at(t, file, 0)[k];
    assert(is_of_type(t, file, r));
    choose|i: int| #![trigger occurrence_at(t, file, i)] r.occ == occurrence_at(t, file, i)
        && names_type(t, i, r.name)
}

// ── All names and places ─────────────────────────────────────────────────────

/// The facts of a file name the file and its language.
pub proof fn facts_name_their_file(t: Syntax, file: Seq<char>, found: Seq<Seq<CaptureView>>)
    ensures
        facts_of(t, file, found).file == file,
        facts_of(t, file, found).lang == Language::Go.tag(),
{
}

/// Each reference has the last scope of the file that holds its place.
pub proof fn references_have_innermost_scopes(
    t: Syntax,
    file: Seq<char>,
    found: Seq<Seq<CaptureView>>,
    k: int,
)
    requires
        0 <= k < facts_of(t, file, found).references.len(),
        facts_of(t, file, found).scopes.len() <= usize::MAX,
    ensures
        is_scoped(facts_of(t, file, found).scopes, facts_of(t, file, found).references[k]),
{
    place_is_scoped(facts_of(t, file, found).scopes, facts_of(t, file, found).references[k]);
}

/// Each definition of a file, but for that of its module, is bound in the scope
/// of the file as a whole.
pub proof fn definitions_are_bound(t: Syntax, file: Seq<char>, found: Seq<Seq<CaptureView>>, k: int)
    requires
        0 <= k < facts_of(t, file, found).symbols.len() - 1,
    ensures
        binds_definition(facts_of(t, file, found), facts_of(t, file, found).symbols[k]),
{
    let f = facts_of(t, file, found);
    let locals = bindings_at(t, f.scopes, 0);
    let c = context(t, file);
    let prefix = steps(t, file);
    let defs = symbols_in(c, prefix, package_of(t) == Some("main"@), 1, t.after(0));
    let imported: Seq<BindingView> = imports_bound(f.scopes, f.references);
    assert(f.bindings =~= locals + definitions_bound(defs) + imported);
    assert(f.symbols[k] == defs[k]);
    definition_is_bound(f, locals, defs, imported, k);
}

/// Each import of a file is bound in the innermost scope at its place.
pub proof fn imports_are_bound(t: Syntax, file: Seq<char>, found: Seq<Seq<CaptureView>>, k: int)
    requires
        0 <= k < facts_of(t, file, found).references.len(),
        facts_of(t, file, found).references[k].role == RefRole::Import,
        facts_of(t, file, found).scopes.len() <= usize::MAX,
    ensures
        binds_import(facts_of(t, file, found), facts_of(t, file, found).references[k]),
{
    let f = facts_of(t, file, found);
    let locals = bindings_at(t, f.scopes, 0);
    let c = context(t, file);
    let prefix = steps(t, file);
    let defs = symbols_in(c, prefix, package_of(t) == Some("main"@), 1, t.after(0));
    imported_is_bound(f, locals, defs, k);
}

/// Each name that a file binds is that of a definition or of an import of the
/// file, or is bound to itself in the innermost scope at its place.
pub proof fn bindings_have_origins(t: Syntax, file: Seq<char>, found: Seq<Seq<CaptureView>>, k: int)
    requires
        0 <= k < facts_of(t, file, found).bindings.len(),
        facts_of(t, file, found).scopes.len() <= usize::MAX,
    ensures
        has_origin(facts_of(t, file, found), facts_of(t, file, found).bindings[k]),
{
    let f = facts_of(t, file, found);
    let locals = bindings_at(t, f.scopes, 0);
    let c = context(t, file);
    let prefix = steps(t, file);
    let defs = symbols_in(c, prefix, package_of(t) == Some("main"@), 1, t.after(0));
    let imported: Seq<BindingView> = imports_bound(f.scopes, f.references);
    assert(f.bindings =~= locals + definitions_bound(defs) + imported);
    locals_are_nested(t, f.scopes, 0);
    bound_has_origin(f, locals, defs, imported, k);
}

// ── Local names are written in the file ──────────────────────────────────────

/// Whether a name is the text of a node at its place.
pub open spec fn is_written(t: Syntax, b: BindingView) -> bool {
    exists|n: int| #![trigger t.text(n)] b.name == t.text(n) && b.intro == t.start(n)
        && t.kind(n) == "identifier"@ && b.name != "_"@
}

/// Whether all names are.
pub open spec fn all_written(t: Syntax, bindings: Seq<BindingView>) -> bool {
    forall|k: int| 0 <= k < bindings.len() ==> is_written(t, #[trigger] bindings[k])
}

proof fn short_locals_in_written(
    t: Syntax,
    scopes: Seq<Scope>,
    values: Option<int>,
    lo: int,
    hi: int,
    k: int,
)
    ensures
        all_written(t, short_locals_in(t, scopes, values, lo, hi, k)),
    decreases hi - lo,
{
    if lo < hi {
        if t.kind(lo) == "identifier"@ {
            short_locals_in_written(t, scopes, values, t.next(lo, hi), hi, k + 1);
        } else {
            short_locals_in_written(t, scopes, values, t.next(lo, hi), hi, k);
        }
    }
}

proof fn ranged_in_written(t: Syntax, scopes: Seq<Scope>, lo: int, hi: int)
    ensures
        all_written(t, ranged_in(t, scopes, lo, hi)),
    decreases hi - lo,
{
    if lo < hi {
        ranged_in_written(t, scopes, t.next(lo, hi), hi);
    }
}

proof fn param_names_in_written(t: Syntax, scopes: Seq<Scope>, param: int, lo: int, hi: int)
    ensures
        all_written(t, param_names_in(t, scopes, param, lo, hi)),
    decreases hi - lo,
{
    if lo < hi {
        param_names_in_written(t, scopes, param, t.next(lo, hi), hi);
    }
}

proof fn params_in_written(t: Syntax, scopes: Seq<Scope>, lo: int, hi: int)
    ensures
        all_written(t, params_in(t, scopes, lo, hi)),
    decreases hi - lo,
{
    if lo < hi {
        if t.named(lo) && (t.kind(lo) == "parameter_declaration"@
            || t.kind(lo) == "variadic_parameter_declaration"@) {
            param_names_in_written(t, scopes, lo, lo + 1, t.after(lo));
        }
        params_in_written(t, scopes, t.next(lo, hi), hi);
    }
}

proof fn function_params_written(t: Syntax, scopes: Seq<Scope>, i: int)
    ensures
        all_written(t, function_params(t, scopes, i)),
{
    if let Some(params) = t.child(i, "parameters"@) {
        params_in_written(t, scopes, params + 1, t.after(params));
    }
    if let Some(receiver) = t.child(i, "receiver"@) {
        params_in_written(t, scopes, receiver + 1, t.after(receiver));
    }
}

proof fn introduced_written(t: Syntax, scopes: Seq<Scope>, i: int)
    ensures
        all_written(t, introduced(t, scopes, i)),
{
    let kind = t.kind(i);
    if kind == "function_declaration"@ || kind == "method_declaration"@ || kind == "func_literal"@ {
        function_params_written(t, scopes, i);
    } else if kind == "short_var_declaration"@ {
        if let Some(left) = t.child(i, "left"@) {
            short_locals_in_written(t, scopes, t.child(i, "right"@), left + 1, t.after(left), 0);
        }
    } else if kind == "range_clause"@ {
        if let Some(left) = t.child(i, "left"@) {
            ranged_in_written(t, scopes, left + 1, t.after(left));
        }
    }
}

proof fn bindings_at_written(t: Syntax, scopes: Seq<Scope>, i: int)
    ensures
        all_written(t, bindings_at(t, scopes, i)),
    decreases t.left(i), 0nat,
{
    if t.has(i) {
        if is_spec(t, i) {
            spec_parts_in_written(t, scopes, i, i + 1, t.after(i), 0);
        } else {
            introduced_written(t, scopes, i);
            bindings_in_written(t, scopes, i + 1, t.after(i));
        }
    }
}

proof fn spec_parts_in_written(t: Syntax, scopes: Seq<Scope>, owner: int, lo: int, hi: int, k: int)
    ensures
        all_written(t, spec_parts_in(t, scopes, owner, lo, hi, k)),
    decreases t.left(lo), 1nat,
{
    if lo < hi && t.has(lo) {
        if t.kind(lo) == "identifier"@ {
            spec_parts_in_written(t, scopes, owner, t.next(lo, hi), hi, k + 1);
        } else {
            bindings_at_written(t, scopes, lo);
            spec_parts_in_written(t, scopes, owner, t.next(lo, hi), hi, k);
        }
    }
}

proof fn bindings_in_written(t: Syntax, scopes: Seq<Scope>, lo: int, hi: int)
    ensures
        all_written(t, bindings_in(t, scopes, lo, hi)),
    decreases t.left(lo), 1nat,
{
    if lo < hi && t.has(lo) {
        bindings_at_written(t, scopes, lo);
        bindings_in_written(t, scopes, t.next(lo, hi), hi);
    }
}

/// Each local name of a file is the text of an identifier at its place, and is
/// not blank.
pub proof fn locals_are_written(t: Syntax, scopes: Seq<Scope>, k: int) -> (n: int)
    requires
        0 <= k < bindings_at(t, scopes, 0).len(),
    ensures
        bindings_at(t, scopes, 0)[k].name == t.text(n),
        bindings_at(t, scopes, 0)[k].intro == t.start(n),
        t.kind(n) == "identifier"@,
        bindings_at(t, scopes, 0)[k].name != "_"@,
{
    bindings_at_written(t, scopes, 0);
    let b = bindings_at(t, scopes, 0)[k];
    assert(is_written(t, b));
    choose|n: int| #![trigger t.text(n)] b.name == t.text(n) && b.intro == t.start(n)
        && t.kind(n) == "identifier"@ && b.name != "_"@
}

// ── Calls ────────────────────────────────────────────────────────────────────

/// Each match with a callee that is long enough is a call, with the qualifier
/// of the match where it has one.
pub proof fn calls_are_reported(
    t: Syntax,
    file: Seq<char>,
    found: Seq<Seq<CaptureView>>,
    k: int,
    c: CaptureView,
    q: CaptureView,
)
    requires
        0 <= k < found.len(),
        captures(found[k], "callee"@, c),
        long_enough(text_between(t.source, c.start, c.end)),
        captures(found[k], "qualifier"@, q),
    ensures
        calls_name(
            facts_of(t, file, found),
            c,
            text_between(t.source, c.start, c.end),
            Some(text_between(t.source, q.start, q.end)),
            false,
        ),
{
    call_is_found(t.source, file, found, k, c);
    let plain = plain_call(t.source, file, found[k]);
    let r = plain;
    in_either(calls(t.source, file, found), imports_at(t, file, 0), r);
    in_either(calls(t.source, file, found) + imports_at(t, file, 0), type_refs_at(t, file, 0), r);
    in_either(
        calls(t.source, file, found) + imports_at(t, file, 0) + type_refs_at(t, file, 0),
        reads_at(t, file, 0),
        r,
    );
    in_either(
        calls(t.source, file, found) + imports_at(t, file, 0) + type_refs_at(t, file, 0)
            + reads_at(t, file, 0),
        writes_at(t, file, 0),
        r,
    );
    is_reported(facts_of(t, file, found), references_of(t, file, found), r);
}

/// Each match with a callee that is long enough and no qualifier is a call
/// without one.
pub proof fn plain_calls_are_reported(
    t: Syntax,
    file: Seq<char>,
    found: Seq<Seq<CaptureView>>,
    k: int,
    c: CaptureView,
)
    requires
        0 <= k < found.len(),
        captures(found[k], "callee"@, c),
        long_enough(text_between(t.source, c.start, c.end)),
        lacks(found[k], "qualifier"@),
    ensures
        calls_name(
            facts_of(t, file, found),
            c,
            text_between(t.source, c.start, c.end),
            None,
            false,
        ),
{
    call_is_found(t.source, file, found, k, c);
    let plain = plain_call(t.source, file, found[k]);
    let r = plain;
    in_either(calls(t.source, file, found), imports_at(t, file, 0), r);
    in_either(calls(t.source, file, found) + imports_at(t, file, 0), type_refs_at(t, file, 0), r);
    in_either(
        calls(t.source, file, found) + imports_at(t, file, 0) + type_refs_at(t, file, 0),
        reads_at(t, file, 0),
        r,
    );
    in_either(
        calls(t.source, file, found) + imports_at(t, file, 0) + type_refs_at(t, file, 0)
            + reads_at(t, file, 0),
        writes_at(t, file, 0),
        r,
    );
    is_reported(facts_of(t, file, found), references_of(t, file, found), r);
}

} // verus!
